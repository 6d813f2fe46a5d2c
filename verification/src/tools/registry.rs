//! Which tool declarations a turn sees when several providers declare tools.
//!
//! The declarations of all providers are taken in registration order (a
//! provider added for one turn comes last). A name already declared by an
//! earlier declaration is skipped, so the first declaration of a name wins
//! and a late provider cannot take over a built-in tool.
use vstd::prelude::*;

use crate::json::strs_view;
use crate::text::{push_str, str_eq};

verus! {

/// One declaration as the merge sees it: the tool's name and the index of the
/// provider that declared it.
#[derive(Debug)]
pub struct Declared {
    pub name: String,
    pub provider: usize,
}

/// The names of `ds`, in order.
pub open spec fn names_of(ds: Seq<Declared>) -> Seq<Seq<char>> {
    ds.map_values(|d: Declared| d.name@)
}

/// Whether declaration `i` is the first of its name.
pub open spec fn first_of_name(names: Seq<Seq<char>>, i: int) -> bool {
    forall|j: int| 0 <= j < i ==> names[j] != names[i]
}

/// Whether `kept` lists, in increasing order, exactly the declarations that
/// are the first of their name.
pub open spec fn is_first_wins(names: Seq<Seq<char>>, kept: Seq<usize>) -> bool {
    &&& forall|k: int| 0 <= k < kept.len() ==> kept[k] < names.len()
    &&& forall|a: int, b: int| 0 <= a < b < kept.len() ==> kept[a] < kept[b]
    &&& forall|i: int| 0 <= i < names.len() ==> (first_of_name(names, i) <==> kept.contains(i as usize))
}

/// The declarations a turn keeps (`snapshot_with`): the positions in `ds` of
/// the first declaration of each name, in order.
pub fn first_wins(ds: &Vec<Declared>) -> (kept: Vec<usize>)
    ensures
        is_first_wins(names_of(ds@), kept@),
{
    let ghost names = names_of(ds@);
    let mut kept: Vec<usize> = Vec::new();
    let mut i: usize = 0;
    while i < ds.len()
        invariant
            i <= ds@.len(),
            names == names_of(ds@),
            forall|k: int| 0 <= k < kept@.len() ==> kept@[k] < i,
            forall|a: int, b: int| 0 <= a < b < kept@.len() ==> kept@[a] < kept@[b],
            forall|x: int| 0 <= x < i ==> (first_of_name(names, x) <==> kept@.contains(x as usize)),
        decreases ds@.len() - i,
    {
        let mut j: usize = 0;
        let mut seen = false;
        while j < i && !seen
            invariant
                i < ds@.len(),
                j <= i,
                names == names_of(ds@),
                seen ==> j > 0 && names[j - 1] == names[i as int],
                !seen ==> forall|y: int| 0 <= y < j ==> names[y] != names[i as int],
            decreases i - j + (if seen { 0int } else { 1int }),
        {
            if str_eq(ds[j].name.as_str(), ds[i].name.as_str()) {
                seen = true;
            }
            j += 1;
        }
        let ghost k0 = kept@;
        if !seen {
            kept.push(i);
        }
        proof {
            assert forall|x: int| 0 <= x < i + 1 implies (first_of_name(names, x) <==> kept@.contains(
                x as usize,
            )) by {
                if x < i {
                    if kept@.contains(x as usize) {
                        let w = choose|w: int| 0 <= w < kept@.len() && kept@[w] == x as usize;
                        if w < k0.len() {
                            assert(k0[w] == kept@[w]);
                        }
                    }
                    if k0.contains(x as usize) {
                        let w = choose|w: int| 0 <= w < k0.len() && k0[w] == x as usize;
                        assert(kept@[w] == k0[w]);
                    }
                } else {
                    if seen {
                        assert(!first_of_name(names, x));
                        if kept@.contains(x as usize) {
                            let w = choose|w: int| 0 <= w < kept@.len() && kept@[w] == x as usize;
                            assert(k0[w] < i);
                        }
                    } else {
                        assert(kept@[kept@.len() - 1] == i);
                    }
                }
            }
        }
        i += 1;
    }
    kept
}

/// The provider of the first declaration of `name`, if any declares it.
pub open spec fn resolve_spec(ds: Seq<Declared>, name: Seq<char>) -> Option<usize>
    decreases ds.len(),
{
    if ds.len() == 0 {
        None
    } else if ds[0].name@ == name {
        Some(ds[0].provider)
    } else {
        resolve_spec(ds.drop_first(), name)
    }
}

/// The provider a tool call goes to (`dispatch`); `None` for an unknown tool
/// (`has` is false).
pub fn resolve(ds: &Vec<Declared>, name: &str) -> (r: Option<usize>)
    ensures
        r == resolve_spec(ds@, name@),
{
    let mut i: usize = 0;
    assert(ds@.skip(0) =~= ds@);
    while i < ds.len()
        invariant
            i <= ds@.len(),
            resolve_spec(ds@, name@) == resolve_spec(ds@.skip(i as int), name@),
        decreases ds@.len() - i,
    {
        assert(ds@.skip(i as int).drop_first() =~= ds@.skip(i + 1));
        assert(ds@.skip(i as int)[0] == ds@[i as int]);
        if str_eq(ds[i].name.as_str(), name) {
            return Some(ds[i].provider);
        }
        i += 1;
    }
    None
}

/// A name resolves exactly when some declaration has it, and then to the
/// provider of the first one.
pub proof fn lemma_resolve_first(ds: Seq<Declared>, name: Seq<char>)
    ensures
        resolve_spec(ds, name) is Some <==> names_of(ds).contains(name),
        forall|i: int|
            0 <= i < ds.len() && ds[i].name@ == name && first_of_name(names_of(ds), i)
                ==> resolve_spec(ds, name) == Some(ds[i].provider),
    decreases ds.len(),
{
    if ds.len() > 0 {
        lemma_resolve_first(ds.drop_first(), name);
        assert(names_of(ds.drop_first()) =~= names_of(ds).drop_first());
        assert(names_of(ds)[0] == ds[0].name@);
        if names_of(ds).contains(name) && ds[0].name@ != name {
            let w = choose|w: int| 0 <= w < names_of(ds).len() && names_of(ds)[w] == name;
            assert(names_of(ds.drop_first())[w - 1] == name);
        }
        if names_of(ds.drop_first()).contains(name) {
            let w = choose|w: int| 0 <= w < names_of(ds.drop_first()).len() && names_of(ds.drop_first())[w] == name;
            assert(names_of(ds)[w + 1] == name);
        }
        assert forall|i: int|
            0 <= i < ds.len() && ds[i].name@ == name && first_of_name(names_of(ds), i)
                implies resolve_spec(ds, name) == Some(ds[i].provider) by {
            if i > 0 {
                assert(names_of(ds)[0] == ds[0].name@);
                assert(names_of(ds)[i] == ds[i].name@);
                assert(names_of(ds)[0] != names_of(ds)[i]);
                assert(ds.drop_first()[i - 1] == ds[i]);
                assert forall|j: int| 0 <= j < i - 1 implies #[trigger] names_of(ds.drop_first())[j]
                    != names_of(ds.drop_first())[i - 1] by {
                    assert(names_of(ds)[j + 1] == names_of(ds.drop_first())[j]);
                }
                assert(first_of_name(names_of(ds.drop_first()), i - 1));
            }
        }
    }
}

/// A provider added after others cannot take over a name that they declare:
/// resolving it in the longer list gives the earlier provider.
pub proof fn lemma_late_provider_cannot_override(base: Seq<Declared>, extra: Seq<Declared>, name: Seq<char>)
    requires
        names_of(base).contains(name),
    ensures
        resolve_spec(base + extra, name) == resolve_spec(base, name),
    decreases base.len(),
{
    if base.len() > 0 {
        assert((base + extra).drop_first() =~= base.drop_first() + extra);
        assert((base + extra)[0] == base[0]);
        if base[0].name@ != name {
            let w = choose|w: int| 0 <= w < names_of(base).len() && names_of(base)[w] == name;
            assert(names_of(base)[0] == base[0].name@);
            assert(names_of(base.drop_first())[w - 1] == name);
            lemma_late_provider_cannot_override(base.drop_first(), extra, name);
        }
    }
}

/// Whether some kept declaration has the name `n`.
pub open spec fn kept_covers(names: Seq<Seq<char>>, kept: Seq<usize>, n: Seq<char>) -> bool {
    exists|k: int| 0 <= k < kept.len() && names[kept[k] as int] == n
}

/// The kept declarations carry each declared name exactly once.
pub proof fn lemma_first_wins_names_distinct(names: Seq<Seq<char>>, kept: Seq<usize>)
    requires
        names.len() <= usize::MAX,
        is_first_wins(names, kept),
    ensures
        forall|a: int, b: int|
            0 <= a < b < kept.len() ==> names[kept[a] as int] != names[kept[b] as int],
        forall|i: int| 0 <= i < names.len() ==> kept_covers(names, kept, #[trigger] names[i]),
{
    assert forall|a: int, b: int| 0 <= a < b < kept.len() implies names[kept[a] as int]
        != names[kept[b] as int] by {
        assert(kept.contains(kept[b]));
        assert(first_of_name(names, kept[b] as int));
    }
    assert forall|i: int| 0 <= i < names.len() implies kept_covers(names, kept, #[trigger] names[i]) by {
        lemma_first_occurrence(names, i);
        let f = choose|f: int| 0 <= f <= i && names[f] == names[i] && first_of_name(names, f);
        assert(kept.contains(f as usize));
        let k = choose|k: int| 0 <= k < kept.len() && kept[k] == f as usize;
        assert(names[kept[k] as int] == names[i]);
    }
}

proof fn lemma_first_occurrence(names: Seq<Seq<char>>, i: int)
    requires
        0 <= i < names.len(),
    ensures
        exists|f: int| 0 <= f <= i && names[f] == names[i] && first_of_name(names, f),
    decreases i,
{
    if !first_of_name(names, i) {
        let j = choose|j: int| 0 <= j < i && names[j] == names[i];
        lemma_first_occurrence(names, j);
        let f = choose|f: int| 0 <= f <= j && names[f] == names[j] && first_of_name(names, f);
        assert(0 <= f <= i && names[f] == names[i] && first_of_name(names, f));
    }
}

/// Registering a built-in tool (`NativeProvider::register`): refused when
/// the name is already taken, with the duplicate named in the message.
pub fn check_new_tool_name(existing: &Vec<String>, name: &str) -> (r: Result<(), String>)
    ensures
        r is Err <==> strs_view(existing@).contains(name@),
        r matches Err(m) ==> m@ == "ツール名が重複しています: "@ + name@,
{
    let mut i: usize = 0;
    while i < existing.len()
        invariant
            i <= existing@.len(),
            forall|j: int| 0 <= j < i ==> existing@[j]@ != name@,
        decreases existing@.len() - i,
    {
        if str_eq(existing[i].as_str(), name) {
            assert(strs_view(existing@)[i as int] == name@);
            let mut m = "ツール名が重複しています: ".to_owned();
            push_str(&mut m, name);
            return Err(m);
        }
        i += 1;
    }
    assert(!strs_view(existing@).contains(name@)) by {
        if strs_view(existing@).contains(name@) {
            let w = choose|w: int| 0 <= w < existing@.len() && #[trigger] strs_view(existing@)[w] == name@;
            assert(existing@[w]@ == name@);
        }
    }
    Ok(())
}

} // verus!
