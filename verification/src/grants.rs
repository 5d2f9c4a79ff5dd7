//! A grant list: the permission names that one row of the store holds.
//!
//! The store keeps the names as an array. The library treats the array as a
//! set that remembers the order of insertion: a name occurs at most once,
//! granting a held name and revoking an absent one change nothing.

use crate::text::same_text;
use vstd::prelude::*;

verus! {

/// The names that a list of owned strings holds, in order.
pub open spec fn names_of(list: Seq<String>) -> Seq<Seq<char>> {
    list.map_values(|s: String| s@)
}

/// `names` after `name` was granted: appended unless already held.
pub open spec fn with_name(names: Seq<Seq<char>>, name: Seq<char>) -> Seq<Seq<char>> {
    if names.contains(name) {
        names
    } else {
        names.push(name)
    }
}

/// `names` after `name` was revoked: every occurrence is gone, the rest keeps
/// its order.
pub open spec fn without_name(names: Seq<Seq<char>>, name: Seq<char>) -> Seq<Seq<char>> {
    names.filter(|n: Seq<char>| n != name)
}

/// Granting adds the name to the set of held names and keeps the list free
/// of duplicates.
pub proof fn lemma_with_name(names: Seq<Seq<char>>, name: Seq<char>)
    ensures
        with_name(names, name).to_set() == names.to_set().insert(name),
        names.no_duplicates() ==> with_name(names, name).no_duplicates(),
        with_name(names, name).contains(name),
        forall|other: Seq<char>|
            other != name ==> (with_name(names, name).contains(other) <==> names.contains(other)),
{
    broadcast use vstd::seq_lib::group_seq_properties;

    if names.contains(name) {
        assert(names.to_set().insert(name) =~= names.to_set());
    } else {
        names.lemma_push_to_set_commute(name);
        assert forall|other: Seq<char>| other != name implies (names.push(name).contains(other)
            <==> names.contains(other)) by {
            vstd::seq_lib::lemma_seq_contains_after_push(names, name, other);
        }
        vstd::seq_lib::lemma_seq_contains_after_push(names, name, name);
    }
}

/// Revoking removes the name from the set of held names, keeps every other
/// name, and keeps the list free of duplicates.
pub proof fn lemma_without_name(names: Seq<Seq<char>>, name: Seq<char>)
    ensures
        without_name(names, name).to_set() == names.to_set().remove(name),
        names.no_duplicates() ==> without_name(names, name).no_duplicates(),
        !without_name(names, name).contains(name),
        forall|other: Seq<char>|
            other != name ==> (without_name(names, name).contains(other) <==> names.contains(
                other,
            )),
        !names.contains(name) ==> without_name(names, name) == names,
    decreases names.len(),
{
    reveal(Seq::filter);
    if names.len() == 0 {
        assert(without_name(names, name).to_set() =~= names.to_set().remove(name));
    } else {
        let front = names.drop_last();
        let last = names.last();
        let kept = without_name(front, name);
        lemma_without_name(front, name);
        assert(names =~= front.push(last));
        front.lemma_push_to_set_commute(last);
        assert forall|other: Seq<char>| names.contains(other) <==> (front.contains(other) || other
            == last) by {
            vstd::seq_lib::lemma_seq_contains_after_push(front, last, other);
        }
        if last != name {
            assert(without_name(names, name) == kept.push(last));
            kept.lemma_push_to_set_commute(last);
            assert forall|other: Seq<char>| kept.push(last).contains(other) <==> (kept.contains(
                other,
            ) || other == last) by {
                vstd::seq_lib::lemma_seq_contains_after_push(kept, last, other);
            }
            assert(without_name(names, name).to_set() =~= names.to_set().remove(name));
            if names.no_duplicates() {
                assert(front.no_duplicates());
                assert(!front.contains(last)) by {
                    if front.contains(last) {
                        let i = choose|i: int| 0 <= i < front.len() && front[i] == last;
                        assert(names[i] == names[names.len() - 1]);
                    }
                }
                assert(kept.contains(last) <==> front.contains(last));
                assert(kept.push(last).no_duplicates());
            }
        } else {
            assert(without_name(names, name) == kept);
            assert(without_name(names, name).to_set() =~= names.to_set().remove(name));
            if names.no_duplicates() {
                assert(front.no_duplicates());
            }
            assert(names.contains(name)) by {
                assert(names[names.len() - 1] == name);
            }
        }
    }
}

/// Whether the list holds `name`.
pub fn holds(ids: &Vec<String>, name: &str) -> (held: bool)
    ensures
        held == names_of(ids@).contains(name@),
{
    let mut i: usize = 0;
    while i < ids.len()
        invariant
            i <= ids.len(),
            forall|j: int| 0 <= j < i ==> names_of(ids@)[j] != name@,
        decreases ids.len() - i,
    {
        if same_text(ids[i].as_str(), name) {
            assert(names_of(ids@)[i as int] == name@);
            return true;
        }
        i += 1;
    }
    false
}

/// Grants `name`: the list gains it unless it is already held.
pub fn add_name(ids: &mut Vec<String>, name: &str)
    ensures
        names_of(final(ids)@) == with_name(names_of(old(ids)@), name@),
{
    if !holds(ids, name) {
        let owned = name.to_owned();
        ids.push(owned);
        assert(names_of(ids@) =~= names_of(old(ids)@).push(name@));
    }
}

/// Revokes `name`: every occurrence leaves the list.
pub fn remove_name(ids: &mut Vec<String>, name: &str)
    ensures
        names_of(final(ids)@) == without_name(names_of(old(ids)@), name@),
{
    let ghost keep = |n: Seq<char>| n != name@;
    let mut kept: Vec<String> = Vec::new();
    let mut i: usize = 0;
    proof {
        reveal(Seq::filter);
        assert(names_of(ids@.take(0)) =~= Seq::<Seq<char>>::empty());
        assert(names_of(kept@) =~= names_of(ids@.take(0)).filter(keep));
    }
    while i < ids.len()
        invariant
            i <= ids.len(),
            keep == |n: Seq<char>| n != name@,
            names_of(kept@) == names_of(ids@.take(i as int)).filter(keep),
        decreases ids.len() - i,
    {
        proof {
            let before = names_of(ids@.take(i as int));
            assert(names_of(ids@.take(i + 1)) =~= before.push(ids@[i as int]@));
            before.lemma_filter_push(ids@[i as int]@, keep);
        }
        if !same_text(ids[i].as_str(), name) {
            let copy = ids[i].clone();
            kept.push(copy);
            assert(names_of(kept@) =~= names_of(ids@.take(i as int)).filter(keep).push(
                ids@[i as int]@,
            ));
        }
        i += 1;
    }
    assert(ids@.take(ids.len() as int) =~= ids@);
    *ids = kept;
}

/// A copy of the list, name for name.
pub fn copy_names(ids: &Vec<String>) -> (copy: Vec<String>)
    ensures
        names_of(copy@) == names_of(ids@),
{
    let mut copy: Vec<String> = Vec::new();
    let mut i: usize = 0;
    while i < ids.len()
        invariant
            i <= ids.len(),
            names_of(copy@) == names_of(ids@.take(i as int)),
        decreases ids.len() - i,
    {
        let item = ids[i].clone();
        copy.push(item);
        assert(names_of(ids@.take(i + 1)) =~= names_of(ids@.take(i as int)).push(ids@[i as int]@));
        assert(names_of(copy@) =~= names_of(ids@.take(i as int)).push(ids@[i as int]@));
        i += 1;
    }
    assert(ids@.take(ids.len() as int) =~= ids@);
    copy
}

} // verus!
