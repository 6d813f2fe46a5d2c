//! Task tags: normalising a tag list and the three ways of editing one.
//!
//! A normalised list holds trimmed, non-empty tags, each once, at most
//! [`MAX_TAGS`] of them, in the order they first appeared.
use vstd::prelude::*;

use crate::json::{strs_view, JsonValue};
use crate::text::{is_blank, str_eq, trim, trim_str};

verus! {

/// The most tags a task keeps.
pub const MAX_TAGS: usize = 8;

/// One step of normalisation: `item` joins `acc` when it is a string that is
/// non-empty once trimmed and not there yet, and `acc` is not full.
pub open spec fn tag_step(acc: Seq<Seq<char>>, item: Option<Seq<char>>) -> Seq<Seq<char>> {
    if acc.len() >= MAX_TAGS {
        acc
    } else {
        match item {
            Some(s) => if trim(s).len() == 0 || acc.contains(trim(s)) {
                acc
            } else {
                acc.push(trim(s))
            },
            None => acc,
        }
    }
}

/// The normalised list of `items` (`None` stands for an item that is no string).
pub open spec fn tags_fold(items: Seq<Option<Seq<char>>>) -> Seq<Seq<char>>
    decreases items.len(),
{
    if items.len() == 0 {
        seq![]
    } else {
        tag_step(tags_fold(items.drop_last()), items.last())
    }
}

pub open spec fn item_str(v: JsonValue) -> Option<Seq<char>> {
    match v {
        JsonValue::Str(s) => Some(s@),
        _ => None,
    }
}

/// `normalizeTags` of a JSON value: an array's string items, normalised; nothing
/// for any other value.
pub open spec fn normalize_tags_spec(v: JsonValue) -> Seq<Seq<char>> {
    match v {
        JsonValue::Array(items) => tags_fold(items@.map_values(|x: JsonValue| item_str(x))),
        _ => seq![],
    }
}

/// The strings of `v`, each as a string item.
pub open spec fn as_items(v: Seq<Seq<char>>) -> Seq<Option<Seq<char>>> {
    v.map_values(|s: Seq<char>| Some(s))
}

/// A list is normalised: trimmed, non-empty, distinct tags, at most eight.
pub open spec fn is_normalized(v: Seq<Seq<char>>) -> bool {
    &&& v.len() <= MAX_TAGS
    &&& forall|i: int| 0 <= i < v.len() ==> #[trigger] v[i].len() > 0 && trim(v[i]) == v[i]
    &&& forall|i: int, j: int| 0 <= i < j < v.len() ==> #[trigger] v[i] != #[trigger] v[j]
}

/// `tags` with every tag that `remove` lists taken out, order kept.
pub open spec fn without(tags: Seq<Seq<char>>, remove: Seq<Seq<char>>) -> Seq<Seq<char>> {
    tags.filter(|t: Seq<char>| !remove.contains(t))
}

proof fn lemma_trim_idem(s: Seq<char>)
    ensures
        trim(trim(s)) == trim(s),
{
    crate::text::lemma_trim_idempotent(s);
}

/// Every normalised list is normalised.
pub proof fn lemma_tags_fold_normalized(items: Seq<Option<Seq<char>>>)
    ensures
        is_normalized(tags_fold(items)),
    decreases items.len(),
{
    if items.len() > 0 {
        lemma_tags_fold_normalized(items.drop_last());
        let acc = tags_fold(items.drop_last());
        match items.last() {
            Some(s) => {
                lemma_trim_idem(s);
                let r = tags_fold(items);
                if acc.len() < MAX_TAGS && trim(s).len() > 0 && !acc.contains(trim(s)) {
                    assert(r == acc.push(trim(s)));
                    assert forall|i: int, j: int| 0 <= i < j < r.len() implies #[trigger] r[i] != #[trigger] r[j] by {
                        if j == r.len() - 1 {
                            assert(r[i] == acc[i]);
                            if r[i] == r[j] {
                                assert(acc.contains(trim(s)));
                            }
                        } else {
                            assert(r[i] == acc[i] && r[j] == acc[j]);
                        }
                    }
                    assert forall|i: int| 0 <= i < r.len() implies #[trigger] r[i].len() > 0 && trim(r[i]) == r[i] by {
                        if i < r.len() - 1 {
                            assert(r[i] == acc[i]);
                        }
                    }
                }
            },
            None => {},
        }
    }
}

/// Adds `s` to `acc` as one normalisation step.
fn push_tag(acc: &mut Vec<String>, s: &str)
    requires
        old(acc)@.len() < MAX_TAGS,
    ensures
        strs_view(final(acc)@) == tag_step(strs_view(old(acc)@), Some(s@)),
{
    if is_blank(s) {
        return;
    }
    let t = trim_str(s);
    let mut i: usize = 0;
    while i < acc.len()
        invariant
            i <= acc@.len(),
            t@ == trim(s@),
            forall|j: int| 0 <= j < i ==> acc@[j]@ != t@,
        decreases acc@.len() - i,
    {
        if str_eq(acc[i].as_str(), t.as_str()) {
            proof {
                assert(strs_view(acc@)[i as int] == t@);
            }
            return;
        }
        i += 1;
    }
    proof {
        assert(!strs_view(acc@).contains(t@)) by {
            if strs_view(acc@).contains(t@) {
                let j = choose|j: int| 0 <= j < strs_view(acc@).len() && strs_view(acc@)[j] == t@;
                assert(acc@[j]@ == t@);
            }
        }
    }
    let ghost before = acc@;
    acc.push(t);
    proof {
        assert(strs_view(acc@) =~= strs_view(before).push(trim(s@)));
    }
}

/// `normalizeTags`: the string items of an array, trimmed, without empties and
/// repeats, the first eight kept.
pub fn normalize_tags(value: &JsonValue) -> (r: Vec<String>)
    ensures
        strs_view(r@) == normalize_tags_spec(*value),
        is_normalized(strs_view(r@)),
{
    let mut out: Vec<String> = Vec::new();
    match value {
        JsonValue::Array(items) => {
            let ghost its = items@.map_values(|x: JsonValue| item_str(x));
            let mut i: usize = 0;
            while i < items.len()
                invariant
                    i <= items@.len(),
                    its == items@.map_values(|x: JsonValue| item_str(x)),
                    strs_view(out@) == tags_fold(its.take(i as int)),
                decreases items@.len() - i,
            {
                proof {
                    assert(its.take(i + 1).drop_last() =~= its.take(i as int));
                    assert(its.take(i + 1).last() == item_str(items@[i as int]));
                }
                if out.len() < MAX_TAGS {
                    match &items[i] {
                        JsonValue::Str(s) => push_tag(&mut out, s.as_str()),
                        _ => {},
                    }
                }
                i += 1;
            }
            proof {
                assert(its.take(items@.len() as int) =~= its);
                lemma_tags_fold_normalized(its);
            }
        },
        _ => {
            proof {
                assert(strs_view(out@) =~= Seq::<Seq<char>>::empty());
                lemma_tags_fold_normalized(Seq::<Option<Seq<char>>>::empty());
            }
        },
    }
    out
}

/// The normalised list of `current` followed by `added` (the `add` edit).
pub fn merge_tags(current: &Vec<String>, added: &Vec<String>) -> (r: Vec<String>)
    ensures
        strs_view(r@) == tags_fold(as_items(strs_view(current@) + strs_view(added@))),
        is_normalized(strs_view(r@)),
{
    let ghost its = as_items(strs_view(current@) + strs_view(added@));
    let mut out: Vec<String> = Vec::new();
    let mut i: usize = 0;
    while i < current.len()
        invariant
            i <= current@.len(),
            its == as_items(strs_view(current@) + strs_view(added@)),
            strs_view(out@) == tags_fold(its.take(i as int)),
        decreases current@.len() - i,
    {
        proof {
            assert(its.take(i + 1).drop_last() =~= its.take(i as int));
            assert(its[i as int] == Some(current@[i as int]@));
        }
        if out.len() < MAX_TAGS {
            push_tag(&mut out, current[i].as_str());
        }
        i += 1;
    }
    let mut j: usize = 0;
    while j < added.len()
        invariant
            j <= added@.len(),
            its == as_items(strs_view(current@) + strs_view(added@)),
            strs_view(out@) == tags_fold(its.take(current@.len() + j)),
        decreases added@.len() - j,
    {
        proof {
            let k = current@.len() + j;
            assert(its.take(k + 1).drop_last() =~= its.take(k));
            assert(its[k] == Some(added@[j as int]@));
        }
        if out.len() < MAX_TAGS {
            push_tag(&mut out, added[j].as_str());
        }
        j += 1;
    }
    proof {
        assert(its.take((current@.len() + added@.len()) as int) =~= its);
        lemma_tags_fold_normalized(its);
    }
    out
}

/// `current` without the tags in `remove` (the `remove` edit).
pub fn remove_tags(current: &Vec<String>, remove: &Vec<String>) -> (r: Vec<String>)
    ensures
        strs_view(r@) == without(strs_view(current@), strs_view(remove@)),
{
    let mut out: Vec<String> = Vec::new();
    let mut i: usize = 0;
    while i < current.len()
        invariant
            i <= current@.len(),
            strs_view(out@) == without(strs_view(current@).take(i as int), strs_view(remove@)),
        decreases current@.len() - i,
    {
        let mut found = false;
        let mut j: usize = 0;
        while j < remove.len()
            invariant
                i < current@.len(),
                j <= remove@.len(),
                found == exists|k: int| 0 <= k < j && remove@[k]@ == current@[i as int]@,
            decreases remove@.len() - j,
        {
            if str_eq(remove[j].as_str(), current[i].as_str()) {
                found = true;
            }
            j += 1;
        }
        let ghost cv = strs_view(current@);
        let ghost rv = strs_view(remove@);
        proof {
            assert(cv[i as int] == current@[i as int]@);
            assert(cv.take(i + 1) =~= cv.take(i as int).push(current@[i as int]@));
            if found {
                let k = choose|k: int| 0 <= k < remove@.len() && remove@[k]@ == current@[i as int]@;
                assert(rv[k] == current@[i as int]@);
            } else {
                assert(!rv.contains(current@[i as int]@)) by {
                    if rv.contains(current@[i as int]@) {
                        let k = choose|k: int| 0 <= k < rv.len() && rv[k] == current@[i as int]@;
                        assert(remove@[k]@ == current@[i as int]@);
                    }
                }
            }
            cv.take(i as int).lemma_filter_push(current@[i as int]@, |t: Seq<char>| !rv.contains(t));
        }
        let ghost before = out@;
        if !found {
            out.push(current[i].clone());
            proof {
                assert(strs_view(out@) =~= strs_view(before).push(current@[i as int]@));
            }
        }
        i += 1;
    }
    proof {
        assert(strs_view(current@).take(current@.len() as int) =~= strs_view(current@));
    }
    out
}

/// A `remove` edit keeps only tags of the list and none of those removed.
pub proof fn lemma_remove_edit(tags: Seq<Seq<char>>, remove: Seq<Seq<char>>)
    ensures
        forall|t: Seq<char>| #[trigger] without(tags, remove).contains(t) ==> tags.contains(t) && !remove.contains(t),
{
    assert forall|t: Seq<char>| #[trigger] without(tags, remove).contains(t) implies tags.contains(t) && !remove.contains(t) by {
        let p = |x: Seq<char>| !remove.contains(x);
        tags.lemma_filter_contains_rev(p, t);
        let w = choose|w: int| 0 <= w < without(tags, remove).len() && without(tags, remove)[w] == t;
        tags.lemma_filter_pred(p, w);
    }
}

proof fn lemma_fold_prefix(a: Seq<Option<Seq<char>>>, b: Seq<Option<Seq<char>>>)
    ensures
        tags_fold(a).len() <= tags_fold(a + b).len(),
        tags_fold(a + b).take(tags_fold(a).len() as int) == tags_fold(a),
    decreases b.len(),
{
    if b.len() == 0 {
        assert(a + b =~= a);
        assert(tags_fold(a).take(tags_fold(a).len() as int) =~= tags_fold(a));
    } else {
        lemma_fold_prefix(a, b.drop_last());
        assert((a + b).drop_last() =~= a + b.drop_last());
        let prev = tags_fold(a + b.drop_last());
        let n = tags_fold(a).len() as int;
        assert(tags_fold(a + b).take(n) =~= prev.take(n));
    }
}

proof fn lemma_fold_normalized_fixed(v: Seq<Seq<char>>)
    requires
        is_normalized(v),
    ensures
        tags_fold(as_items(v)) == v,
    decreases v.len(),
{
    if v.len() > 0 {
        let d = v.drop_last();
        assert(is_normalized(d)) by {
            assert forall|i: int, j: int| 0 <= i < j < d.len() implies #[trigger] d[i] != #[trigger] d[j] by {
                assert(d[i] == v[i] && d[j] == v[j]);
            }
            assert forall|i: int| 0 <= i < d.len() implies #[trigger] d[i].len() > 0 && trim(d[i]) == d[i] by {
                assert(d[i] == v[i]);
            }
        }
        lemma_fold_normalized_fixed(d);
        assert(as_items(v).drop_last() =~= as_items(d));
        assert(as_items(v).last() == Some(v.last()));
        assert(trim(v.last()) == v.last());
        assert(!d.contains(v.last())) by {
            if d.contains(v.last()) {
                let w = choose|w: int| 0 <= w < d.len() && d[w] == v.last();
                assert(v[w] == v[v.len() - 1]);
            }
        }
        assert(d.push(v.last()) =~= v);
    }
}

/// An `add` edit keeps the current tags, in place, at the front: a
/// normalised list is a prefix of what adding to it gives.
pub proof fn lemma_add_keeps_current(current: Seq<Seq<char>>, added: Seq<Seq<char>>)
    requires
        is_normalized(current),
    ensures
        tags_fold(as_items(current + added)).take(current.len() as int) == current,
        current.len() <= tags_fold(as_items(current + added)).len(),
{
    assert(as_items(current + added) =~= as_items(current) + as_items(added));
    lemma_fold_prefix(as_items(current), as_items(added));
    lemma_fold_normalized_fixed(current);
}

} // verus!
