//! Which memory ids live in which scope.
//!
//! Each scope (user, bot, guild) holds a bucket of ids. An id lives in at most
//! one bucket; a bucket holds each id once and at most [`MAX_PER_SCOPE`] ids.
//! Inserting into a full bucket evicts its smallest id.
use vstd::prelude::*;
use vstd::pervasive::VecAdditionalExecFns;

use crate::json::opt_view;
use crate::text::str_eq;

verus! {

/// The most memories a scope keeps.
pub const MAX_PER_SCOPE: usize = 5000;

/// The scope of a memory: user, bot and, when in a guild, the guild.
#[derive(Debug, Clone, Default)]
pub struct Scope {
    pub user_id: String,
    pub bot_id: String,
    pub guild_id: Option<String>,
}

pub type ScopeKey = (Seq<char>, Seq<char>, Option<Seq<char>>);

pub open spec fn scope_key(s: Scope) -> ScopeKey {
    (s.user_id@, s.bot_id@, opt_view(s.guild_id))
}

/// Two scopes are the same when all three parts match.
pub fn same_scope(a: &Scope, b: &Scope) -> (r: bool)
    ensures
        r == (scope_key(*a) == scope_key(*b)),
{
    let g = match (&a.guild_id, &b.guild_id) {
        (Some(x), Some(y)) => str_eq(x.as_str(), y.as_str()),
        (None, None) => true,
        _ => false,
    };
    str_eq(a.user_id.as_str(), b.user_id.as_str()) && str_eq(a.bot_id.as_str(), b.bot_id.as_str()) && g
}

/// `ids` without `id`, order kept.
pub open spec fn remove_all(ids: Seq<i64>, id: i64) -> Seq<i64>
    decreases ids.len(),
{
    if ids.len() == 0 {
        seq![]
    } else {
        remove_all(ids.drop_last(), id) + if ids.last() == id {
            seq![]
        } else {
            seq![ids.last()]
        }
    }
}

/// The ids of `ids` are distinct.
pub open spec fn distinct(ids: Seq<i64>) -> bool {
    forall|a: int, b: int| 0 <= a < b < ids.len() ==> #[trigger] ids[a] != #[trigger] ids[b]
}

/// `p` is where the smallest id of `ids` sits (the first such place).
pub open spec fn is_min_pos(ids: Seq<i64>, p: int) -> bool {
    &&& 0 <= p < ids.len()
    &&& forall|j: int| 0 <= j < ids.len() ==> ids[p] <= #[trigger] ids[j]
    &&& forall|j: int| 0 <= j < p ==> ids[p] < #[trigger] ids[j]
}

/// The bucket after `id` goes into it: unchanged when there, else appended,
/// after evicting the smallest id (moving the last id into its place) when full.
pub open spec fn place(ids: Seq<i64>, id: i64) -> Seq<i64> {
    if ids.contains(id) {
        ids
    } else if ids.len() >= MAX_PER_SCOPE {
        let p = choose|p: int| is_min_pos(ids, p);
        ids.update(p, ids.last()).drop_last().push(id)
    } else {
        ids.push(id)
    }
}

/// Buckets, each a scope and its ids.
pub type Buckets = Seq<(ScopeKey, Seq<i64>)>;

/// The buckets are well formed: distinct scopes, distinct ids per bucket, no
/// id in two buckets, no bucket over the limit.
pub open spec fn wf(v: Buckets) -> bool {
    &&& forall|i: int, j: int| 0 <= i < j < v.len() ==> #[trigger] v[i].0 != #[trigger] v[j].0
    &&& forall|i: int| 0 <= i < v.len() ==> distinct(#[trigger] v[i].1) && v[i].1.len() <= MAX_PER_SCOPE
    &&& forall|i: int, j: int, x: i64| 0 <= i < v.len() && 0 <= j < v.len() && i != j && #[trigger] v[i].1.contains(x)
        ==> !#[trigger] v[j].1.contains(x)
}

/// Whether a bucket for scope `s` exists.
pub open spec fn has_scope(v: Buckets, s: ScopeKey) -> bool {
    exists|i: int| 0 <= i < v.len() && #[trigger] v[i].0 == s
}

/// The buckets after inserting `id` into scope `s`: it leaves every other
/// scope and is placed in `s`'s bucket (made when missing).
pub open spec fn insert_spec(v: Buckets, s: ScopeKey, id: i64) -> Buckets {
    let moved = Seq::new(v.len(), |i: int| if v[i].0 == s {
        (s, place(v[i].1, id))
    } else {
        (v[i].0, remove_all(v[i].1, id))
    });
    if has_scope(v, s) {
        moved
    } else {
        moved.push((s, seq![id]))
    }
}

/// The buckets with `id` taken out of each.
pub open spec fn strip(v: Buckets, id: i64) -> Buckets {
    Seq::new(v.len(), |i: int| (v[i].0, remove_all(v[i].1, id)))
}

/// The non-empty buckets of `v`, in order.
pub open spec fn drop_empty(v: Buckets) -> Buckets
    decreases v.len(),
{
    if v.len() == 0 {
        seq![]
    } else {
        drop_empty(v.drop_last()) + if v.last().1.len() == 0 {
            seq![]
        } else {
            seq![v.last()]
        }
    }
}

/// The buckets after removing `id` everywhere; buckets left empty go away.
pub open spec fn remove_spec(v: Buckets, id: i64) -> Buckets {
    drop_empty(strip(v, id))
}

/// Whether `id` is in some bucket.
pub open spec fn holds(v: Buckets, id: i64) -> bool {
    exists|i: int| 0 <= i < v.len() && #[trigger] v[i].1.contains(id)
}

/// The number of ids in all buckets.
pub open spec fn total_spec(v: Buckets) -> nat
    decreases v.len(),
{
    if v.len() == 0 {
        0
    } else {
        total_spec(v.drop_last()) + v.last().1.len()
    }
}

proof fn lemma_remove_all(ids: Seq<i64>, id: i64)
    ensures
        forall|x: i64| #[trigger] remove_all(ids, id).contains(x) <==> (ids.contains(x) && x != id),
        distinct(ids) ==> distinct(remove_all(ids, id)),
        remove_all(ids, id).len() <= ids.len(),
        !ids.contains(id) ==> remove_all(ids, id) == ids,
    decreases ids.len(),
{
    if ids.len() > 0 {
        let prev = ids.drop_last();
        lemma_remove_all(prev, id);
        let r = remove_all(ids, id);
        let rp = remove_all(prev, id);
        assert forall|x: i64| #[trigger] r.contains(x) <==> (ids.contains(x) && x != id) by {
            if r.contains(x) {
                let k = choose|k: int| 0 <= k < r.len() && r[k] == x;
                if k < rp.len() {
                    assert(rp[k] == x);
                    assert(rp.contains(x));
                    assert(prev.contains(x));
                    let m = choose|m: int| 0 <= m < prev.len() && prev[m] == x;
                    assert(ids[m] == x);
                } else {
                    assert(ids[ids.len() - 1] == x);
                }
            }
            if ids.contains(x) && x != id {
                let k = choose|k: int| 0 <= k < ids.len() && ids[k] == x;
                if k < ids.len() - 1 {
                    assert(prev[k] == x);
                    assert(rp.contains(x));
                    let m = choose|m: int| 0 <= m < rp.len() && rp[m] == x;
                    assert(r[m] == x);
                } else {
                    assert(r[r.len() - 1] == x);
                }
            }
        }
        if distinct(ids) {
            assert(distinct(prev)) by {
                assert forall|a: int, b: int| 0 <= a < b < prev.len() implies #[trigger] prev[a] != #[trigger] prev[b] by {
                    assert(prev[a] == ids[a] && prev[b] == ids[b]);
                }
            }
            assert forall|a: int, b: int| 0 <= a < b < r.len() implies #[trigger] r[a] != #[trigger] r[b] by {
                if b >= rp.len() {
                    assert(r[b] == ids.last());
                    assert(r[a] == rp[a]);
                    assert(rp.contains(rp[a]));
                    assert(prev.contains(r[a]));
                    let m = choose|m: int| 0 <= m < prev.len() && prev[m] == r[a];
                    assert(ids[m] == prev[m]);
                } else {
                    assert(r[a] == rp[a] && r[b] == rp[b]);
                }
            }
        }
        if !ids.contains(id) {
            assert(!prev.contains(id)) by {
                if prev.contains(id) {
                    let m = choose|m: int| 0 <= m < prev.len() && prev[m] == id;
                    assert(ids[m] == id);
                }
            }
            assert(ids.last() != id);
            assert(r =~= ids);
        }
    } else {
        assert(remove_all(ids, id) =~= ids);
    }
}

proof fn lemma_min_pos_exists(ids: Seq<i64>)
    requires
        ids.len() > 0,
    ensures
        exists|p: int| is_min_pos(ids, p),
    decreases ids.len(),
{
    if ids.len() == 1 {
        assert(is_min_pos(ids, 0));
    } else {
        let prev = ids.drop_last();
        lemma_min_pos_exists(prev);
        let p = choose|p: int| is_min_pos(prev, p);
        if ids.last() < prev[p] {
            assert forall|j: int| 0 <= j < ids.len() implies ids[ids.len() - 1] <= #[trigger] ids[j] by {
                if j < ids.len() - 1 {
                    assert(ids[j] == prev[j]);
                    assert(prev[p] <= prev[j]);
                }
            }
            assert forall|j: int| 0 <= j < ids.len() - 1 implies ids[ids.len() - 1] < #[trigger] ids[j] by {
                assert(ids[j] == prev[j]);
                assert(prev[p] <= prev[j]);
            }
            assert(is_min_pos(ids, ids.len() - 1));
        } else {
            assert forall|j: int| 0 <= j < ids.len() implies ids[p] <= #[trigger] ids[j] by {
                if j < ids.len() - 1 {
                    assert(ids[j] == prev[j]);
                    assert(prev[p] <= prev[j]);
                }
            }
            assert forall|j: int| 0 <= j < p implies ids[p] < #[trigger] ids[j] by {
                assert(ids[j] == prev[j]);
                assert(prev[p] < prev[j]);
            }
            assert(is_min_pos(ids, p));
        }
    }
}

proof fn lemma_place(ids: Seq<i64>, id: i64)
    requires
        distinct(ids),
        ids.len() <= MAX_PER_SCOPE,
    ensures
        distinct(place(ids, id)),
        place(ids, id).len() <= MAX_PER_SCOPE,
        place(ids, id).contains(id),
        forall|x: i64| #[trigger] place(ids, id).contains(x) ==> x == id || ids.contains(x),
{
    let r = place(ids, id);
    if ids.contains(id) {
    } else if ids.len() >= MAX_PER_SCOPE {
        lemma_min_pos_exists(ids);
        let p = choose|p: int| is_min_pos(ids, p);
        let u = ids.update(p, ids.last()).drop_last();
        assert(r == u.push(id));
        assert(r[r.len() - 1] == id);
        assert forall|x: i64| #[trigger] r.contains(x) implies x == id || ids.contains(x) by {
            let k = choose|k: int| 0 <= k < r.len() && r[k] == x;
            if k < u.len() {
                if k == p {
                    assert(ids[ids.len() - 1] == x);
                } else {
                    assert(ids[k] == x);
                }
            }
        }
        assert forall|a: int, b: int| 0 <= a < b < r.len() implies #[trigger] r[a] != #[trigger] r[b] by {
            if b == r.len() - 1 {
                if a == p {
                    assert(r[a] == ids[ids.len() - 1]);
                } else {
                    assert(r[a] == ids[a]);
                }
            } else if a == p {
                assert(r[a] == ids[ids.len() - 1]);
                assert(r[b] == ids[b]);
            } else if b == p {
                assert(r[b] == ids[ids.len() - 1]);
                assert(r[a] == ids[a]);
            } else {
                assert(r[a] == ids[a] && r[b] == ids[b]);
            }
        }
    } else {
        assert(r[r.len() - 1] == id);
        assert forall|x: i64| #[trigger] r.contains(x) implies x == id || ids.contains(x) by {
            let k = choose|k: int| 0 <= k < r.len() && r[k] == x;
            if k < ids.len() {
                assert(ids[k] == x);
            }
        }
        assert forall|a: int, b: int| 0 <= a < b < r.len() implies #[trigger] r[a] != #[trigger] r[b] by {
            if b == r.len() - 1 {
                assert(r[a] == ids[a]);
            } else {
                assert(r[a] == ids[a] && r[b] == ids[b]);
            }
        }
    }
}

/// Inserting keeps the buckets well formed, puts `id` in scope `s`, and in no
/// other scope.
pub proof fn lemma_insert_spec(v: Buckets, s: ScopeKey, id: i64)
    requires
        wf(v),
    ensures
        wf(insert_spec(v, s, id)),
        exists|i: int| 0 <= i < insert_spec(v, s, id).len() && #[trigger] insert_spec(v, s, id)[i].0 == s
            && insert_spec(v, s, id)[i].1.contains(id),
        forall|i: int| 0 <= i < insert_spec(v, s, id).len() && #[trigger] insert_spec(v, s, id)[i].0 != s
            ==> !insert_spec(v, s, id)[i].1.contains(id),
{
    let r = insert_spec(v, s, id);
    assert forall|i: int| 0 <= i < v.len() implies #[trigger] r[i].0 == v[i].0 && (v[i].0 == s ==> r[i].1 == place(v[i].1, id))
        && (v[i].0 != s ==> r[i].1 == remove_all(v[i].1, id)) by {}
    assert forall|i: int| 0 <= i < v.len() implies distinct(#[trigger] r[i].1) && r[i].1.len() <= MAX_PER_SCOPE
        && (forall|x: i64| #[trigger] r[i].1.contains(x) ==> v[i].1.contains(x) || (x == id && v[i].0 == s))
        && (v[i].0 != s ==> !r[i].1.contains(id)) && (v[i].0 == s ==> r[i].1.contains(id)) by {
        assert(distinct(v[i].1) && v[i].1.len() <= MAX_PER_SCOPE);
        lemma_remove_all(v[i].1, id);
        lemma_place(v[i].1, id);
    }
    if !has_scope(v, s) {
        let n = v.len() as int;
        assert(r[n] == (s, seq![id]));
        assert(r[n].1.contains(id)) by {
            assert(r[n].1[0] == id);
        }
        assert(distinct(r[n].1));
        assert(r[n].0 == s);
    } else {
        let k = choose|k: int| 0 <= k < v.len() && #[trigger] v[k].0 == s;
        assert(r[k].0 == s);
        assert(r[k].1.contains(id));
    }
    assert forall|i: int, j: int| 0 <= i < j < r.len() implies #[trigger] r[i].0 != #[trigger] r[j].0 by {
        if j == v.len() {
            assert(v[i].0 != s);
        }
    }
    assert forall|i: int, j: int, x: i64| 0 <= i < r.len() && 0 <= j < r.len() && i != j && #[trigger] r[i].1.contains(x)
        implies !#[trigger] r[j].1.contains(x) by {
        if r[j].1.contains(x) {
            if x == id {
                if i < v.len() && j < v.len() {
                    assert(v[i].0 == s && v[j].0 == s);
                } else if i == v.len() {
                    assert(r[j].0 != s);
                } else {
                    assert(r[i].0 != s);
                }
            } else {
                if i < v.len() && j < v.len() {
                    assert(v[i].1.contains(x) && v[j].1.contains(x));
                } else if i == v.len() {
                    assert(r[i].1 == seq![id]);
                    let m = choose|m: int| 0 <= m < r[i].1.len() && r[i].1[m] == x;
                } else {
                    assert(r[j].1 == seq![id]);
                    let m = choose|m: int| 0 <= m < r[j].1.len() && r[j].1[m] == x;
                }
            }
        }
    }
    assert forall|i: int| 0 <= i < r.len() && #[trigger] r[i].0 != s implies !r[i].1.contains(id) by {}
}

proof fn lemma_drop_empty(v: Buckets)
    ensures
        forall|i: int| 0 <= i < drop_empty(v).len() ==> v.contains(#[trigger] drop_empty(v)[i]) && drop_empty(v)[i].1.len() > 0,
    decreases v.len(),
{
    if v.len() > 0 {
        let prev = v.drop_last();
        lemma_drop_empty(prev);
        let r = drop_empty(v);
        let rp = drop_empty(prev);
        assert forall|i: int| 0 <= i < r.len() implies v.contains(#[trigger] r[i]) && r[i].1.len() > 0 by {
            if i < rp.len() {
                assert(r[i] == rp[i]);
                assert(prev.contains(rp[i]));
                let m = choose|m: int| 0 <= m < prev.len() && prev[m] == rp[i];
                assert(v[m] == prev[m]);
            } else {
                assert(r[i] == v[v.len() - 1]);
            }
        }
    }
}

/// Scopes are distinct and no id is in two buckets.
pub open spec fn apart(v: Buckets) -> bool {
    &&& forall|i: int, j: int| 0 <= i < j < v.len() ==> #[trigger] v[i].0 != #[trigger] v[j].0
    &&& forall|i: int, j: int, x: i64| 0 <= i < v.len() && 0 <= j < v.len() && i != j && #[trigger] v[i].1.contains(x)
        ==> !#[trigger] v[j].1.contains(x)
}

proof fn lemma_drop_empty_apart(v: Buckets)
    requires
        apart(v),
    ensures
        apart(drop_empty(v)),
    decreases v.len(),
{
    if v.len() > 0 {
        let prev = v.drop_last();
        assert(apart(prev)) by {
            assert forall|i: int, j: int| 0 <= i < j < prev.len() implies #[trigger] prev[i].0 != #[trigger] prev[j].0 by {
                assert(prev[i] == v[i] && prev[j] == v[j]);
            }
            assert forall|i: int, j: int, x: i64| 0 <= i < prev.len() && 0 <= j < prev.len() && i != j && #[trigger] prev[i].1.contains(x)
                implies !#[trigger] prev[j].1.contains(x) by {
                assert(prev[i] == v[i] && prev[j] == v[j]);
            }
        }
        lemma_drop_empty_apart(prev);
        lemma_drop_empty(prev);
        let r = drop_empty(v);
        let rp = drop_empty(prev);
        if v.last().1.len() > 0 {
            let n = v.len() - 1;
            assert(r == rp.push(v[n]));
            assert forall|i: int, j: int| 0 <= i < j < r.len() implies #[trigger] r[i].0 != #[trigger] r[j].0 by {
                if j == r.len() - 1 {
                    assert(prev.contains(rp[i]));
                    let m = choose|m: int| 0 <= m < prev.len() && prev[m] == rp[i];
                    assert(v[m] == rp[i]);
                    assert(r[i] == rp[i]);
                } else {
                    assert(r[i] == rp[i] && r[j] == rp[j]);
                }
            }
            assert forall|i: int, j: int, x: i64| 0 <= i < r.len() && 0 <= j < r.len() && i != j && #[trigger] r[i].1.contains(x)
                implies !#[trigger] r[j].1.contains(x) by {
                if i == r.len() - 1 {
                    assert(prev.contains(rp[j]));
                    let m = choose|m: int| 0 <= m < prev.len() && prev[m] == rp[j];
                    assert(v[m] == rp[j] && r[j] == rp[j]);
                    assert(r[i] == v[n]);
                } else if j == r.len() - 1 {
                    assert(prev.contains(rp[i]));
                    let m = choose|m: int| 0 <= m < prev.len() && prev[m] == rp[i];
                    assert(v[m] == rp[i] && r[i] == rp[i]);
                    assert(r[j] == v[n]);
                } else {
                    assert(r[i] == rp[i] && r[j] == rp[j]);
                }
            }
        } else {
            assert(r == rp);
        }
    }
}

/// Removing keeps the buckets well formed, leaves `id` in no bucket and no
/// bucket empty.
pub proof fn lemma_remove_spec(v: Buckets, id: i64)
    requires
        wf(v),
    ensures
        wf(remove_spec(v, id)),
        !holds(remove_spec(v, id), id),
        forall|i: int| 0 <= i < remove_spec(v, id).len() ==> #[trigger] remove_spec(v, id)[i].1.len() > 0,
{
    let st = strip(v, id);
    assert forall|i: int| 0 <= i < st.len() implies distinct(#[trigger] st[i].1) && st[i].1.len() <= MAX_PER_SCOPE
        && !st[i].1.contains(id) && (forall|x: i64| #[trigger] st[i].1.contains(x) ==> v[i].1.contains(x)) && st[i].0 == v[i].0 by {
        assert(distinct(v[i].1));
        lemma_remove_all(v[i].1, id);
    }
    assert(apart(st)) by {
        assert forall|i: int, j: int, x: i64| 0 <= i < st.len() && 0 <= j < st.len() && i != j && #[trigger] st[i].1.contains(x)
            implies !#[trigger] st[j].1.contains(x) by {
            if st[j].1.contains(x) {
                assert(v[i].1.contains(x) && v[j].1.contains(x));
            }
        }
    }
    lemma_drop_empty(st);
    lemma_drop_empty_apart(st);
    let r = remove_spec(v, id);
    assert forall|i: int| 0 <= i < r.len() implies distinct(#[trigger] r[i].1) && r[i].1.len() <= MAX_PER_SCOPE
        && !r[i].1.contains(id) && r[i].1.len() > 0 by {
        assert(st.contains(r[i]));
        let m = choose|m: int| 0 <= m < st.len() && st[m] == r[i];
    }
    assert(!holds(r, id)) by {
        if holds(r, id) {
            let i = choose|i: int| 0 <= i < r.len() && #[trigger] r[i].1.contains(id);
        }
    }
}


proof fn lemma_drop_empty_append(a: Buckets, b: Buckets)
    ensures
        drop_empty(a + b) == drop_empty(a) + drop_empty(b),
    decreases b.len(),
{
    if b.len() == 0 {
        assert(a + b =~= a);
        assert(drop_empty(a) + drop_empty(b) =~= drop_empty(a));
    } else {
        lemma_drop_empty_append(a, b.drop_last());
        assert((a + b).drop_last() =~= a + b.drop_last());
        assert((a + b).last() == b.last());
    }
}

proof fn lemma_min_pos_unique(ids: Seq<i64>, p: int, q: int)
    requires
        is_min_pos(ids, p),
        is_min_pos(ids, q),
    ensures
        p == q,
{
    if p < q {
        assert(ids[q] < ids[p]);
    } else if q < p {
        assert(ids[p] < ids[q]);
    }
}

/// What an insertion did to the scope's bucket.
#[derive(Debug, Clone, Copy, PartialEq, Eq)]
pub enum InsertOutcome {
    /// The id was there already; its entry is replaced.
    Replaced,
    /// The id was added.
    Added,
    /// The bucket was full: this smallest id was evicted, then the id added.
    Evicted(i64),
}

fn copy_scope(s: &Scope) -> (r: Scope)
    ensures
        scope_key(r) == scope_key(*s),
{
    Scope {
        user_id: s.user_id.clone(),
        bot_id: s.bot_id.clone(),
        guild_id: match &s.guild_id {
            Some(g) => Some(g.clone()),
            None => None,
        },
    }
}

fn remove_id(ids: &Vec<i64>, id: i64) -> (r: Vec<i64>)
    ensures
        r@ == remove_all(ids@, id),
{
    let mut out: Vec<i64> = Vec::new();
    let mut i: usize = 0;
    while i < ids.len()
        invariant
            i <= ids@.len(),
            out@ == remove_all(ids@.take(i as int), id),
        decreases ids@.len() - i,
    {
        proof {
            assert(ids@.take(i + 1).drop_last() =~= ids@.take(i as int));
        }
        if ids[i] != id {
            out.push(ids[i]);
        }
        proof {
            assert(out@ =~= remove_all(ids@.take(i + 1), id));
        }
        i += 1;
    }
    proof {
        assert(ids@.take(ids@.len() as int) =~= ids@);
    }
    out
}

fn contains_id(ids: &Vec<i64>, id: i64) -> (r: bool)
    ensures
        r == ids@.contains(id),
{
    let mut i: usize = 0;
    while i < ids.len()
        invariant
            i <= ids@.len(),
            forall|j: int| 0 <= j < i ==> ids@[j] != id,
        decreases ids@.len() - i,
    {
        if ids[i] == id {
            return true;
        }
        i += 1;
    }
    false
}

fn min_position(ids: &Vec<i64>) -> (p: usize)
    requires
        ids@.len() > 0,
    ensures
        is_min_pos(ids@, p as int),
{
    let mut p: usize = 0;
    let mut j: usize = 1;
    while j < ids.len()
        invariant
            1 <= j <= ids@.len(),
            p < j,
            forall|k: int| 0 <= k < j ==> ids@[p as int] <= #[trigger] ids@[k],
            forall|k: int| 0 <= k < p ==> ids@[p as int] < #[trigger] ids@[k],
        decreases ids@.len() - j,
    {
        if ids[j] < ids[p] {
            p = j;
        }
        j += 1;
    }
    p
}

/// The place of `id` in a bucket, with what happened.
fn place_id(ids: Vec<i64>, id: i64) -> (r: (Vec<i64>, InsertOutcome))
    ensures
        r.0@ == place(ids@, id),
        r.1 == (if ids@.contains(id) {
            InsertOutcome::Replaced
        } else if ids@.len() >= MAX_PER_SCOPE {
            InsertOutcome::Evicted(ids@[choose|p: int| is_min_pos(ids@, p)])
        } else {
            InsertOutcome::Added
        }),
{
    if contains_id(&ids, id) {
        return (ids, InsertOutcome::Replaced);
    }
    let mut ids = ids;
    if ids.len() >= MAX_PER_SCOPE {
        let p = min_position(&ids);
        proof {
            lemma_min_pos_unique(ids@, p as int, choose|q: int| is_min_pos(ids@, q));
        }
        let evicted = ids.swap_remove(p);
        ids.push(id);
        (ids, InsertOutcome::Evicted(evicted))
    } else {
        ids.push(id);
        (ids, InsertOutcome::Added)
    }
}

/// A bucket as the view sees it.
pub open spec fn entry_view(b: (Scope, Vec<i64>)) -> (ScopeKey, Seq<i64>) {
    (scope_key(b.0), b.1@)
}

/// The memory ids of each scope.
#[derive(Debug)]
pub struct SynapseIds {
    buckets: Vec<(Scope, Vec<i64>)>,
}

impl View for SynapseIds {
    type V = Buckets;

    closed spec fn view(&self) -> Buckets {
        self.buckets@.map_values(|b: (Scope, Vec<i64>)| entry_view(b))
    }
}

impl SynapseIds {
    /// The buckets are well formed.
    pub open spec fn well_formed(&self) -> bool {
        wf(self@)
    }

    /// An empty index (the width is not used by the bookkeeping).
    pub fn new(_dim: usize) -> (r: SynapseIds)
        ensures
            r@ == Seq::<(ScopeKey, Seq<i64>)>::empty(),
            r.well_formed(),
    {
        let r = SynapseIds { buckets: Vec::new() };
        proof {
            assert(r@ =~= Seq::<(ScopeKey, Seq<i64>)>::empty());
        }
        r
    }

    /// The number of ids over all scopes (at most `usize::MAX`).
    pub fn total(&self) -> (r: usize)
        ensures
            r == if total_spec(self@) > usize::MAX {
                usize::MAX as nat
            } else {
                total_spec(self@)
            },
    {
        let mut t: usize = 0;
        let mut i: usize = 0;
        let ghost v = self@;
        while i < self.buckets.len()
            invariant
                i <= self.buckets@.len(),
                v == self@,
                v.len() == self.buckets@.len(),
                t == if total_spec(v.take(i as int)) > usize::MAX {
                    usize::MAX as nat
                } else {
                    total_spec(v.take(i as int))
                },
            decreases self.buckets@.len() - i,
        {
            proof {
                assert(v.take(i + 1).drop_last() =~= v.take(i as int));
                assert(v.take(i + 1).last() == v[i as int]);
                assert(v[i as int].1 == self.buckets@[i as int].1@);
            }
            t = t.saturating_add(self.buckets[i].1.len());
            i += 1;
        }
        proof {
            assert(v.take(v.len() as int) =~= v);
        }
        t
    }

    /// The ids of `scope`, in bucket order; none when the scope has no bucket.
    pub fn ids_in(&self, scope: &Scope) -> (r: Vec<i64>)
        ensures
            has_scope(self@, scope_key(*scope)) ==> exists|i: int| 0 <= i < self@.len() && #[trigger] self@[i].0
                == scope_key(*scope) && r@ == self@[i].1,
            !has_scope(self@, scope_key(*scope)) ==> r@.len() == 0,
    {
        let mut i: usize = 0;
        while i < self.buckets.len()
            invariant
                i <= self.buckets@.len(),
                self@.len() == self.buckets@.len(),
                forall|j: int| 0 <= j < i ==> self@[j].0 != scope_key(*scope),
            decreases self.buckets@.len() - i,
        {
            if same_scope(&self.buckets[i].0, scope) {
                proof {
                    assert(self@[i as int].0 == scope_key(*scope));
                }
                return self.buckets[i].1.clone();
            }
            i += 1;
        }
        Vec::new()
    }

    /// Puts `id` in `scope` (`SynapseIndex::insert`): out of every other
    /// scope, replaced when already there, otherwise added, evicting the
    /// smallest id of a full bucket first.
    pub fn insert(&mut self, scope: Scope, id: i64) -> (r: InsertOutcome)
        requires
            old(self).well_formed(),
        ensures
            final(self).well_formed(),
            final(self)@ == insert_spec(old(self)@, scope_key(scope), id),
            !has_scope(old(self)@, scope_key(scope)) ==> r == InsertOutcome::Added,
            forall|i: int| 0 <= i < old(self)@.len() && #[trigger] old(self)@[i].0 == scope_key(scope) ==> r == (
                if old(self)@[i].1.contains(id) {
                    InsertOutcome::Replaced
                } else if old(self)@[i].1.len() >= MAX_PER_SCOPE {
                    InsertOutcome::Evicted(old(self)@[i].1[choose|p: int| is_min_pos(old(self)@[i].1, p)])
                } else {
                    InsertOutcome::Added
                }),
    {
        let ghost v = self@;
        let ghost key = scope_key(scope);
        let ghost target = insert_spec(v, key, id);
        let mut out: Vec<(Scope, Vec<i64>)> = Vec::new();
        let mut outcome = InsertOutcome::Added;
        let mut found = false;
        let mut i: usize = 0;
        while i < self.buckets.len()
            invariant
                i <= self.buckets@.len(),
                v == self@,
                v.len() == self.buckets@.len(),
                key == scope_key(scope),
                target == insert_spec(v, key, id),
                wf(v),
                out@.len() == i,
                forall|j: int| 0 <= j < i ==> #[trigger] entry_view(out@[j]) == target[j],
                found <==> exists|j: int| 0 <= j < i && #[trigger] v[j].0 == key,
                found ==> forall|j: int| 0 <= j < i && #[trigger] v[j].0 == key ==> outcome == (
                    if v[j].1.contains(id) {
                        InsertOutcome::Replaced
                    } else if v[j].1.len() >= MAX_PER_SCOPE {
                        InsertOutcome::Evicted(v[j].1[choose|p: int| is_min_pos(v[j].1, p)])
                    } else {
                        InsertOutcome::Added
                    }),
                !found ==> outcome == InsertOutcome::Added,
            decreases self.buckets@.len() - i,
        {
            let sc = copy_scope(&self.buckets[i].0);
            proof {
                assert(v[i as int] == entry_view(self.buckets@[i as int]));
            }
            if same_scope(&self.buckets[i].0, &scope) {
                let (placed, oc) = place_id(self.buckets[i].1.clone(), id);
                outcome = oc;
                found = true;
                out.push((sc, placed));
                proof {
                    assert(v[i as int].0 == key);
                    assert forall|j: int| 0 <= j < i + 1 && #[trigger] v[j].0 == key implies j == i by {
                        if j != i {
                            assert(v[j].0 != v[i as int].0);
                        }
                    }
                }
            } else {
                let kept = remove_id(&self.buckets[i].1, id);
                out.push((sc, kept));
                proof {
                    assert(v[i as int].0 != key);
                }
            }
            proof {
                assert forall|j: int| 0 <= j < i + 1 implies #[trigger] entry_view(out@[j]) == target[j] by {
                    if j == i {
                        if !has_scope(v, key) {
                            assert(target[j] == Seq::new(v.len(), |k: int| if v[k].0 == key {
                                (key, place(v[k].1, id))
                            } else {
                                (v[k].0, remove_all(v[k].1, id))
                            })[j]);
                        }
                    }
                }
            }
            i += 1;
        }
        if !found {
            let mut ids: Vec<i64> = Vec::new();
            ids.push(id);
            proof {
                assert(!has_scope(v, key));
                assert(ids@ =~= seq![id]);
            }
            out.push((scope, ids));
        } else {
            proof {
                assert(has_scope(v, key));
            }
        }
        self.buckets = out;
        proof {
            assert(self@ =~= target);
            lemma_insert_spec(v, key, id);
        }
        outcome
    }

    /// Takes `id` out of every scope (`SynapseIndex::remove`); emptied scopes
    /// go away. True when the id was somewhere.
    pub fn remove(&mut self, id: i64) -> (r: bool)
        requires
            old(self).well_formed(),
        ensures
            final(self).well_formed(),
            final(self)@ == remove_spec(old(self)@, id),
            r == holds(old(self)@, id),
            !holds(final(self)@, id),
    {
        let ghost v = self@;
        let ghost st = strip(v, id);
        let mut out: Vec<(Scope, Vec<i64>)> = Vec::new();
        let mut removed = false;
        let mut i: usize = 0;
        while i < self.buckets.len()
            invariant
                i <= self.buckets@.len(),
                v == self@,
                v.len() == self.buckets@.len(),
                st == strip(v, id),
                out@.map_values(|b: (Scope, Vec<i64>)| entry_view(b)) == drop_empty(st.take(i as int)),
                removed == exists|j: int| 0 <= j < i && #[trigger] v[j].1.contains(id),
            decreases self.buckets@.len() - i,
        {
            proof {
                assert(v[i as int] == entry_view(self.buckets@[i as int]));
            }
            let had = contains_id(&self.buckets[i].1, id);
            if had {
                removed = true;
            }
            let kept = remove_id(&self.buckets[i].1, id);
            let ghost before = out@;
            if kept.len() > 0 {
                let sc = copy_scope(&self.buckets[i].0);
                out.push((sc, kept));
            }
            proof {
                assert(st.take(i + 1).drop_last() =~= st.take(i as int));
                assert(st.take(i + 1).last() == st[i as int]);
                assert(out@.map_values(|b: (Scope, Vec<i64>)| entry_view(b)) =~= drop_empty(st.take(i + 1)));
            }
            i += 1;
        }
        self.buckets = out;
        proof {
            assert(st.take(v.len() as int) =~= st);
            lemma_remove_spec(v, id);
        }
        removed
    }
}

} // verus!
