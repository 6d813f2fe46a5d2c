//! Grouping tasks by tag and counting tags.
//!
//! Both tools see the same shape: a list of (item, tag) pairs. Each tag gets a
//! group with the items that carry it, in order; the groups are ranked by size,
//! larger first, then by tag in code-point order, and one tag may be pinned to
//! the end.
use vstd::prelude::*;
use vstd::pervasive::VecAdditionalExecFns;

use super::dto::TodoWithSubtasks;
use crate::json::strs_view;
use crate::order::{lemma_str_lt_total, lemma_str_lt_trans, str_less, str_lt};
use crate::text::str_eq;

verus! {

/// A tag and the items that carry it.
#[derive(Debug)]
pub struct TagGroup {
    pub tag: String,
    pub items: Vec<usize>,
}

/// The group of tasks without tags.
pub open spec fn untagged() -> Seq<char> {
    "未分類"@
}

pub open spec fn pairs_view(ps: Seq<(usize, String)>) -> Seq<(usize, Seq<char>)> {
    ps.map_values(|p: (usize, String)| (p.0, p.1@))
}

pub open spec fn groups_view(gs: Seq<TagGroup>) -> Seq<(Seq<char>, Seq<usize>)> {
    gs.map_values(|g: TagGroup| (g.tag@, g.items@))
}

/// The items of the pairs whose tag is `t`, in order.
pub open spec fn refs(ps: Seq<(usize, Seq<char>)>, t: Seq<char>) -> Seq<usize>
    decreases ps.len(),
{
    if ps.len() == 0 {
        seq![]
    } else {
        refs(ps.drop_last(), t) + if ps.last().1 == t {
            seq![ps.last().0]
        } else {
            seq![]
        }
    }
}

/// `gs` holds one group per tag of `ps`, each with the items that carry it.
pub open spec fn describes(ps: Seq<(usize, Seq<char>)>, gs: Seq<(Seq<char>, Seq<usize>)>) -> bool {
    &&& forall|i: int, j: int| 0 <= i < j < gs.len() ==> #[trigger] gs[i].0 != #[trigger] gs[j].0
    &&& forall|i: int| 0 <= i < gs.len() ==> #[trigger] gs[i].1 == refs(ps, gs[i].0) && gs[i].1.len() > 0
    &&& forall|k: int| 0 <= k < ps.len() ==> #[trigger] covered(ps, gs, k)
}

/// The tag of pair `k` has a group in `gs`.
pub open spec fn covered(ps: Seq<(usize, Seq<char>)>, gs: Seq<(Seq<char>, Seq<usize>)>, k: int) -> bool {
    exists|i: int| 0 <= i < gs.len() && #[trigger] gs[i].0 == ps[k].1
}

/// Group `a` ranks before group `b`: the pinned tag goes last; otherwise the
/// larger group first, then the tag that sorts first.
pub open spec fn ranks_before(a: (Seq<char>, Seq<usize>), b: (Seq<char>, Seq<usize>), last: Option<Seq<char>>) -> bool {
    if last == Some(a.0) {
        false
    } else if last == Some(b.0) {
        true
    } else {
        a.1.len() > b.1.len() || (a.1.len() == b.1.len() && str_lt(a.0, b.0))
    }
}

/// `gs` is in rank order.
pub open spec fn ranked(gs: Seq<(Seq<char>, Seq<usize>)>, last: Option<Seq<char>>) -> bool {
    forall|i: int, j: int| 0 <= i < j < gs.len() ==> ranks_before(#[trigger] gs[i], #[trigger] gs[j], last)
}

proof fn lemma_rank_total(a: (Seq<char>, Seq<usize>), b: (Seq<char>, Seq<usize>), last: Option<Seq<char>>)
    requires
        a.0 != b.0,
    ensures
        ranks_before(a, b, last) || ranks_before(b, a, last),
        !(ranks_before(a, b, last) && ranks_before(b, a, last)),
{
    lemma_str_lt_total(a.0, b.0);
}

proof fn lemma_rank_trans(
    a: (Seq<char>, Seq<usize>),
    b: (Seq<char>, Seq<usize>),
    c: (Seq<char>, Seq<usize>),
    last: Option<Seq<char>>,
)
    requires
        ranks_before(a, b, last),
        ranks_before(b, c, last),
    ensures
        ranks_before(a, c, last),
{
    if last != Some(a.0) && last != Some(b.0) && last != Some(c.0) {
        if a.1.len() == b.1.len() && b.1.len() == c.1.len() {
            lemma_str_lt_trans(a.0, b.0, c.0);
        }
    }
}

proof fn lemma_refs_absent(ps: Seq<(usize, Seq<char>)>, t: Seq<char>)
    requires
        forall|k: int| 0 <= k < ps.len() ==> ps[k].1 != t,
    ensures
        refs(ps, t) == Seq::<usize>::empty(),
    decreases ps.len(),
{
    if ps.len() > 0 {
        lemma_refs_absent(ps.drop_last(), t);
        assert(ps.last().1 != t);
    }
}

proof fn lemma_found_step(
    pre: Seq<(usize, Seq<char>)>,
    before: Seq<(Seq<char>, Seq<usize>)>,
    j: int,
    idx: usize,
    t: Seq<char>,
)
    requires
        describes(pre, before),
        0 <= j < before.len(),
        before[j].0 == t,
    ensures
        describes(pre.push((idx, t)), before.update(j, (t, before[j].1.push(idx)))),
{
    let post = pre.push((idx, t));
    let after = before.update(j, (t, before[j].1.push(idx)));
    assert(post.drop_last() =~= pre);
    assert forall|i: int| 0 <= i < after.len() implies #[trigger] after[i].1 == refs(post, after[i].0)
        && after[i].1.len() > 0 by {
        if i != j {
            assert(after[i] == before[i]);
        }
    }
    assert forall|a: int, b: int| 0 <= a < b < after.len() implies #[trigger] after[a].0 != #[trigger] after[b].0 by {
        assert(after[a].0 == before[a].0 && after[b].0 == before[b].0);
    }
    assert forall|m: int| 0 <= m < post.len() implies covered(post, after, m) by {
        if m == pre.len() {
            assert(after[j].0 == post[m].1);
        } else {
            assert(post[m] == pre[m]);
            assert(covered(pre, before, m));
            let i = choose|i: int| 0 <= i < before.len() && #[trigger] before[i].0 == pre[m].1;
            assert(after[i].0 == post[m].1);
        }
    }
}

proof fn lemma_new_step(
    pre: Seq<(usize, Seq<char>)>,
    before: Seq<(Seq<char>, Seq<usize>)>,
    idx: usize,
    t: Seq<char>,
)
    requires
        describes(pre, before),
        forall|i: int| 0 <= i < before.len() ==> before[i].0 != t,
    ensures
        describes(pre.push((idx, t)), before.push((t, seq![idx]))),
{
    let post = pre.push((idx, t));
    let after = before.push((t, seq![idx]));
    let n = before.len() as int;
    assert(post.drop_last() =~= pre);
    assert forall|m: int| 0 <= m < pre.len() implies pre[m].1 != t by {
        if pre[m].1 == t {
            assert(covered(pre, before, m));
            let i = choose|i: int| 0 <= i < before.len() && #[trigger] before[i].0 == pre[m].1;
        }
    }
    lemma_refs_absent(pre, t);
    assert forall|i: int| 0 <= i < after.len() implies #[trigger] after[i].1 == refs(post, after[i].0)
        && after[i].1.len() > 0 by {
        if i == n {
            assert(refs(post, t) =~= seq![idx]);
        } else {
            assert(after[i] == before[i]);
        }
    }
    assert forall|a: int, b: int| 0 <= a < b < after.len() implies #[trigger] after[a].0 != #[trigger] after[b].0 by {
        if b == n {
            assert(after[a] == before[a]);
        } else {
            assert(after[a] == before[a] && after[b] == before[b]);
        }
    }
    assert forall|m: int| 0 <= m < post.len() implies covered(post, after, m) by {
        if m == pre.len() {
            assert(after[n].0 == post[m].1);
        } else {
            assert(post[m] == pre[m]);
            assert(covered(pre, before, m));
            let i = choose|i: int| 0 <= i < before.len() && #[trigger] before[i].0 == pre[m].1;
            assert(after[i].0 == post[m].1);
        }
    }
}

/// Groups the pairs by tag, in the order the tags first appear.
pub fn group_pairs(ps: &Vec<(usize, String)>) -> (r: Vec<TagGroup>)
    ensures
        describes(pairs_view(ps@), groups_view(r@)),
{
    let ghost pv = pairs_view(ps@);
    let mut gs: Vec<TagGroup> = Vec::new();
    let mut k: usize = 0;
    while k < ps.len()
        invariant
            k <= ps@.len(),
            pv == pairs_view(ps@),
            describes(pv.take(k as int), groups_view(gs@)),
        decreases ps@.len() - k,
    {
        let idx = ps[k].0;
        let t = &ps[k].1;
        let ghost pre = pv.take(k as int);
        let ghost post = pv.take(k + 1);
        let ghost before = groups_view(gs@);
        proof {
            assert(post.drop_last() =~= pre);
            assert(pv[k as int] == (idx, t@));
            assert(post.last() == (idx, t@));
        }
        let mut j: usize = 0;
        let mut found = false;
        while !found && j < gs.len()
            invariant
                j <= gs@.len(),
                before == groups_view(gs@),
                !found ==> forall|i: int| 0 <= i < j ==> before[i].0 != t@,
                found ==> j < gs@.len() && before[j as int].0 == t@,
            decreases gs@.len() - j + (if found { 0int } else { 1int }),
        {
            if str_eq(gs[j].tag.as_str(), t.as_str()) {
                found = true;
            } else {
                j += 1;
            }
        }
        if found {
            let mut g = TagGroup { tag: String::new(), items: Vec::new() };
            gs.set_and_swap(j, &mut g);
            g.items.push(idx);
            gs.set(j, g);
            proof {
                lemma_found_step(pre, before, j as int, idx, t@);
                assert(post =~= pre.push((idx, t@)));
                assert(groups_view(gs@) =~= before.update(j as int, (t@, before[j as int].1.push(idx))));
            }
        } else {
            let tag = t.clone();
            let mut its: Vec<usize> = Vec::new();
            its.push(idx);
            assert(its@ =~= seq![idx]);
            let ghost gs_before = gs@;
            gs.push(TagGroup { tag, items: its });
            proof {
                assert(gs@ =~= gs_before.push(gs@.last()));
                lemma_new_step(pre, before, idx, t@);
                assert(post =~= pre.push((idx, t@)));
                assert(groups_view(gs@) =~= before.push((t@, seq![idx])));
            }
        }
        k += 1;
    }
    proof {
        assert(pv.take(ps@.len() as int) =~= pv);
    }
    gs
}


pub open spec fn group_view(g: TagGroup) -> (Seq<char>, Seq<usize>) {
    (g.tag@, g.items@)
}

pub open spec fn opt_str_view(o: Option<&str>) -> Option<Seq<char>> {
    match o {
        Some(s) => Some(s@),
        None => None,
    }
}

/// The tags of `gs` are distinct.
pub open spec fn distinct_tags(gs: Seq<(Seq<char>, Seq<usize>)>) -> bool {
    forall|i: int, j: int| 0 <= i < j < gs.len() ==> #[trigger] gs[i].0 != #[trigger] gs[j].0
}

fn ranks_before_exec(a: &TagGroup, b: &TagGroup, last: Option<&str>) -> (r: bool)
    ensures
        r == ranks_before(group_view(*a), group_view(*b), opt_str_view(last)),
{
    match last {
        Some(l) => {
            if str_eq(a.tag.as_str(), l) {
                return false;
            }
            if str_eq(b.tag.as_str(), l) {
                return true;
            }
        },
        None => {},
    }
    a.items.len() > b.items.len() || (a.items.len() == b.items.len() && str_less(a.tag.as_str(), b.tag.as_str()))
}

proof fn lemma_insert_ranked(
    ov: Seq<(Seq<char>, Seq<usize>)>,
    g: (Seq<char>, Seq<usize>),
    p: int,
    last: Option<Seq<char>>,
)
    requires
        ranked(ov, last),
        distinct_tags(ov),
        forall|i: int| 0 <= i < ov.len() ==> ov[i].0 != g.0,
        0 <= p <= ov.len(),
        forall|q: int| 0 <= q < p ==> !ranks_before(g, #[trigger] ov[q], last),
        p < ov.len() ==> ranks_before(g, ov[p], last),
    ensures
        ranked(ov.insert(p, g), last),
        distinct_tags(ov.insert(p, g)),
{
    let nv = ov.insert(p, g);
    assert forall|i: int, j: int| 0 <= i < j < nv.len() implies ranks_before(#[trigger] nv[i], #[trigger] nv[j], last) by {
        if i < p && j == p {
            assert(nv[i] == ov[i]);
            lemma_rank_total(ov[i], g, last);
        } else if i < p && j > p {
            assert(nv[i] == ov[i] && nv[j] == ov[j - 1]);
        } else if i == p {
            assert(nv[j] == ov[j - 1]);
            if j - 1 > p {
                lemma_rank_trans(g, ov[p], ov[j - 1], last);
            }
        } else if j < p {
            assert(nv[i] == ov[i] && nv[j] == ov[j]);
        } else {
            assert(nv[i] == ov[i - 1] && nv[j] == ov[j - 1]);
        }
    }
    assert forall|i: int, j: int| 0 <= i < j < nv.len() implies #[trigger] nv[i].0 != #[trigger] nv[j].0 by {
        if j == p {
            assert(nv[i] == ov[i]);
        } else if i == p {
            assert(nv[j] == ov[j - 1]);
        } else if i < p && j > p {
            assert(nv[i] == ov[i] && nv[j] == ov[j - 1]);
        } else if j < p {
            assert(nv[i] == ov[i]);
            assert(nv[j] == ov[j]);
        } else {
            assert(nv[i] == ov[i - 1]);
            assert(nv[j] == ov[j - 1]);
            assert(ov[i - 1].0 != ov[j - 1].0);
        }
    }
}

/// The groups `gs` in rank order, `last` pinned to the end.
pub fn rank_groups(gs: Vec<TagGroup>, last: Option<&str>) -> (r: Vec<TagGroup>)
    requires
        distinct_tags(groups_view(gs@)),
    ensures
        r@.len() == gs@.len(),
        forall|x: (Seq<char>, Seq<usize>)| groups_view(gs@).contains(x) <==> groups_view(r@).contains(x),
        distinct_tags(groups_view(r@)),
        ranked(groups_view(r@), opt_str_view(last)),
{
    let ghost orig = groups_view(gs@);
    let ghost lv = opt_str_view(last);
    let mut rem = gs;
    let mut out: Vec<TagGroup> = Vec::new();
    while rem.len() > 0
        invariant
            groups_view(rem@).len() + groups_view(out@).len() == orig.len(),
            forall|x: (Seq<char>, Seq<usize>)| orig.contains(x) <==> (groups_view(rem@).contains(x) || groups_view(out@).contains(x)),
            distinct_tags(groups_view(rem@)),
            distinct_tags(groups_view(out@)),
            forall|a: int, b: int| 0 <= a < rem@.len() && 0 <= b < out@.len() ==> #[trigger] groups_view(rem@)[a].0 != #[trigger] groups_view(out@)[b].0,
            ranked(groups_view(out@), lv),
            lv == opt_str_view(last),
        decreases rem@.len(),
    {
        let ghost rv = groups_view(rem@);
        let ghost ov = groups_view(out@);
        let g = rem.pop().unwrap();
        let ghost gv = group_view(g);
        proof {
            assert(groups_view(rem@) =~= rv.drop_last());
            assert(gv == rv.last());
        }
        let mut p: usize = 0;
        let mut stop = false;
        while !stop && p < out.len()
            invariant
                p <= out@.len(),
                ov == groups_view(out@),
                forall|q: int| 0 <= q < p ==> !ranks_before(gv, #[trigger] ov[q], lv),
                stop ==> p < out@.len() && ranks_before(gv, ov[p as int], lv),
                lv == opt_str_view(last),
                gv == group_view(g),
            decreases out@.len() - p + (if stop { 0int } else { 1int }),
        {
            if ranks_before_exec(&g, &out[p], last) {
                stop = true;
            } else {
                p += 1;
            }
        }
        proof {
            assert forall|i: int| 0 <= i < ov.len() implies ov[i].0 != gv.0 by {
                assert(rv[rv.len() - 1] == gv);
            }
            lemma_insert_ranked(ov, gv, p as int, lv);
        }
        out.insert(p, g);
        proof {
            let nv = groups_view(out@);
            assert(nv =~= ov.insert(p as int, gv));
            let nr = groups_view(rem@);
            assert forall|x: (Seq<char>, Seq<usize>)| orig.contains(x) <==> (nr.contains(x) || nv.contains(x)) by {
                if rv.contains(x) {
                    let i = choose|i: int| 0 <= i < rv.len() && rv[i] == x;
                    if i < rv.len() - 1 {
                        assert(nr[i] == x);
                    } else {
                        assert(nv[p as int] == x);
                    }
                }
                if ov.contains(x) {
                    let i = choose|i: int| 0 <= i < ov.len() && ov[i] == x;
                    if i < p {
                        assert(nv[i] == x);
                    } else {
                        assert(nv[i + 1] == x);
                    }
                }
                if nr.contains(x) {
                    let i = choose|i: int| 0 <= i < nr.len() && nr[i] == x;
                    assert(rv[i] == x);
                }
                if nv.contains(x) {
                    let i = choose|i: int| 0 <= i < nv.len() && nv[i] == x;
                    if i < p {
                        assert(ov[i] == x);
                    } else if i == p {
                        assert(rv[rv.len() - 1] == x);
                    } else {
                        assert(ov[i - 1] == x);
                    }
                }
            }
            assert forall|a: int, b: int| 0 <= a < nr.len() && 0 <= b < nv.len() implies #[trigger] nr[a].0 != #[trigger] nv[b].0 by {
                assert(nr[a] == rv[a]);
                if b < p {
                    assert(nv[b] == ov[b]);
                } else if b == p {
                    assert(nv[b] == rv[rv.len() - 1]);
                } else {
                    assert(nv[b] == ov[b - 1]);
                }
            }
            assert forall|a: int, b: int| 0 <= a < b < nr.len() implies #[trigger] nr[a].0 != #[trigger] nr[b].0 by {
                assert(nr[a] == rv[a] && nr[b] == rv[b]);
            }
        }
    }
    proof {
        assert forall|x: (Seq<char>, Seq<usize>)| groups_view(gs@).contains(x) <==> groups_view(out@).contains(x) by {
            if groups_view(rem@).contains(x) {
                let i = choose|i: int| 0 <= i < groups_view(rem@).len() && groups_view(rem@)[i] == x;
            }
        }
    }
    out
}


proof fn lemma_describes_same_members(
    ps: Seq<(usize, Seq<char>)>,
    gs: Seq<(Seq<char>, Seq<usize>)>,
    rs: Seq<(Seq<char>, Seq<usize>)>,
)
    requires
        describes(ps, gs),
        distinct_tags(rs),
        forall|x: (Seq<char>, Seq<usize>)| gs.contains(x) <==> rs.contains(x),
    ensures
        describes(ps, rs),
{
    assert forall|i: int| 0 <= i < rs.len() implies #[trigger] rs[i].1 == refs(ps, rs[i].0) && rs[i].1.len() > 0 by {
        assert(rs.contains(rs[i]));
        let j = choose|j: int| 0 <= j < gs.len() && gs[j] == rs[i];
        assert(gs[j].1 == refs(ps, gs[j].0));
    }
    assert forall|k: int| 0 <= k < ps.len() implies covered(ps, rs, k) by {
        assert(covered(ps, gs, k));
        let j = choose|j: int| 0 <= j < gs.len() && #[trigger] gs[j].0 == ps[k].1;
        assert(gs.contains(gs[j]));
        let i = choose|i: int| 0 <= i < rs.len() && rs[i] == gs[j];
        assert(rs[i].0 == ps[k].1);
    }
}

/// Groups `ps` by tag and ranks the groups, `last` pinned to the end.
pub fn group_and_rank(ps: &Vec<(usize, String)>, last: Option<&str>) -> (r: Vec<TagGroup>)
    ensures
        describes(pairs_view(ps@), groups_view(r@)),
        ranked(groups_view(r@), opt_str_view(last)),
{
    let gs = group_pairs(ps);
    let ghost gv = groups_view(gs@);
    let r = rank_groups(gs, last);
    proof {
        lemma_describes_same_members(pairs_view(ps@), gv, groups_view(r@));
    }
    r
}

/// The (task, tag) pairs of `todos`: each tag of each task, and the untagged
/// group for a task without tags.
pub open spec fn todo_pairs(todos: Seq<TodoWithSubtasks>) -> Seq<(usize, Seq<char>)>
    decreases todos.len(),
{
    if todos.len() == 0 {
        seq![]
    } else {
        let i = (todos.len() - 1) as usize;
        let tags = todos.last().tags@;
        todo_pairs(todos.drop_last()) + if tags.len() == 0 {
            seq![(i, untagged())]
        } else {
            tags.map_values(|t: String| (i, t@))
        }
    }
}

/// The pairs of `todos`, in order.
pub fn tag_pairs(todos: &Vec<TodoWithSubtasks>) -> (r: Vec<(usize, String)>)
    ensures
        pairs_view(r@) == todo_pairs(todos@),
{
    let mut out: Vec<(usize, String)> = Vec::new();
    let mut i: usize = 0;
    while i < todos.len()
        invariant
            i <= todos@.len(),
            pairs_view(out@) == todo_pairs(todos@.take(i as int)),
        decreases todos@.len() - i,
    {
        let ghost before = pairs_view(out@);
        proof {
            assert(todos@.take(i + 1).drop_last() =~= todos@.take(i as int));
            assert(todos@.take(i + 1).last() == todos@[i as int]);
        }
        let tags = &todos[i].tags;
        if tags.len() == 0 {
            out.push((i, "未分類".to_owned()));
            proof {
                assert(pairs_view(out@) =~= before + seq![(i, untagged())]);
            }
        } else {
            let mut k: usize = 0;
            while k < tags.len()
                invariant
                    k <= tags@.len(),
                    i < todos@.len(),
                    *tags == todos@[i as int].tags,
                    pairs_view(out@) == before + tags@.take(k as int).map_values(|t: String| (i, t@)),
                decreases tags@.len() - k,
            {
                let ghost prev = out@;
                out.push((i, tags[k].clone()));
                proof {
                    assert(pairs_view(out@) =~= pairs_view(prev).push((i, tags@[k as int]@)));
                    assert(tags@.take(k + 1).map_values(|t: String| (i, t@)) =~= tags@.take(k as int).map_values(
                        |t: String| (i, t@),
                    ).push((i, tags@[k as int]@)));
                    assert(pairs_view(out@) =~= before + tags@.take(k + 1).map_values(|t: String| (i, t@)));
                }
                k += 1;
            }
            proof {
                assert(tags@.take(tags@.len() as int) =~= tags@);
            }
        }
        i += 1;
    }
    proof {
        assert(todos@.take(todos@.len() as int) =~= todos@);
    }
    out
}

/// `listTasksByTag`: the tasks grouped by tag (a task in each of its tags'
/// groups, untagged ones together), larger groups first, then by tag, the
/// untagged group last. Items are positions in `todos`.
pub fn group_todos_by_tag(todos: &Vec<TodoWithSubtasks>) -> (r: Vec<TagGroup>)
    ensures
        describes(todo_pairs(todos@), groups_view(r@)),
        ranked(groups_view(r@), Some(untagged())),
{
    let ps = tag_pairs(todos);
    group_and_rank(&ps, Some("未分類"))
}

/// The (position, tag) pairs of a flat tag list.
pub open spec fn flat_pairs(all: Seq<String>) -> Seq<(usize, Seq<char>)> {
    Seq::new(all.len(), |i: int| (i as usize, all[i]@))
}

/// `listTodoTags`: each distinct tag with the positions where it occurs (its
/// count is their number), most frequent first, then by tag.
pub fn tag_tally(all: &Vec<String>) -> (r: Vec<TagGroup>)
    ensures
        describes(flat_pairs(all@), groups_view(r@)),
        ranked(groups_view(r@), None),
{
    let mut ps: Vec<(usize, String)> = Vec::new();
    let mut i: usize = 0;
    while i < all.len()
        invariant
            i <= all@.len(),
            pairs_view(ps@) == flat_pairs(all@).take(i as int),
        decreases all@.len() - i,
    {
        let ghost prev = ps@;
        ps.push((i, all[i].clone()));
        proof {
            assert(pairs_view(ps@) =~= pairs_view(prev).push((i, all@[i as int]@)));
            assert(pairs_view(ps@) =~= flat_pairs(all@).take(i + 1));
        }
        i += 1;
    }
    proof {
        assert(flat_pairs(all@).take(all@.len() as int) =~= flat_pairs(all@));
    }
    group_and_rank(&ps, None)
}

} // verus!
