//! The index of one guild's role grants: for each permission name, the roles
//! that hold it.
//!
//! The index is what the cache keeps per guild. It is built in one pass over
//! the guild's rows of `role_permission` and never changed afterwards.

use crate::grants::names_of;
use crate::rows::RolePermission;
use std::collections::HashSet;
use vstd::hash_map::StringHashMap;
use vstd::prelude::*;
use vstd::std_specs::hash::group_hash_axioms;

verus! {

/// The index in memory.
pub type RoleSets = StringHashMap<HashSet<u64>>;

/// The index as contracts see it.
pub type IndexModel = Map<Seq<char>, Set<u64>>;

/// What an index in memory stands for.
pub open spec fn index_model(sets: RoleSets) -> IndexModel {
    Map::new(|name: Seq<char>| sets@.contains_key(name), |name: Seq<char>| sets@[name]@)
}

/// The answer of an index: `None` for a name it does not know, else whether
/// the role is among the name's holders.
pub open spec fn lookup(index: IndexModel, name: Seq<char>, roleid: u64) -> Option<bool> {
    if index.contains_key(name) {
        Some(index[name].contains(roleid))
    } else {
        None
    }
}

/// Whether the index says that the role holds the name.
pub open spec fn index_grants(index: IndexModel, name: Seq<char>, roleid: u64) -> bool {
    lookup(index, name, roleid) == Some(true)
}

/// Whether the index says that one of `roles` holds the name.
pub open spec fn any_role_grants(index: IndexModel, roles: Seq<u64>, name: Seq<char>) -> bool {
    exists|k: int| 0 <= k < roles.len() && index_grants(index, name, #[trigger] roles[k])
}

/// Whether one of `rows` gives `name` to the role.
pub open spec fn rows_grant(rows: Seq<RolePermission>, name: Seq<char>, roleid: u64) -> bool {
    exists|i: int|
        0 <= i < rows.len() && (#[trigger] rows[i]).roleid.0 == roleid && names_of(
            rows[i].ids@,
        ).contains(name)
}

/// Whether one of `rows` holds `name`.
pub open spec fn rows_name(rows: Seq<RolePermission>, name: Seq<char>) -> bool {
    exists|i: int| 0 <= i < rows.len() && names_of((#[trigger] rows[i]).ids@).contains(name)
}

/// The index of `rows`: it knows exactly the names that some row holds, and
/// lists for each the roles whose row holds it.
pub open spec fn index_of(rows: Seq<RolePermission>) -> IndexModel {
    Map::new(
        |name: Seq<char>| rows_name(rows, name),
        |name: Seq<char>| Set::new(|roleid: u64| rows_grant(rows, name, roleid)),
    )
}

/// `index` with the role added to the holders of `name`.
pub open spec fn with_role(index: IndexModel, name: Seq<char>, roleid: u64) -> IndexModel {
    if index.contains_key(name) {
        index.insert(name, index[name].insert(roleid))
    } else {
        index.insert(name, Set::empty().insert(roleid))
    }
}

/// A copy of a set of roles, made by `HashSet`'s `Clone`: the copy holds the
/// same roles as the set it was made from.
#[verifier::external_body]
fn clone_roles(roles: &HashSet<u64>) -> (copy: HashSet<u64>)
    ensures
        copy@ == roles@,
{
    roles.clone()
}

/// Adds the role to the holders of `name`, creating the set on first use.
fn insert_role(sets: &mut RoleSets, name: &str, roleid: u64)
    ensures
        index_model(*final(sets)) == with_role(index_model(*old(sets)), name@, roleid),
{
    broadcast use group_hash_axioms;

    let mut roles = match sets.get(name) {
        Some(existing) => clone_roles(existing),
        None => HashSet::new(),
    };
    roles.insert(roleid);
    sets.insert(name.to_owned(), roles);
    assert(index_model(*sets) =~= with_role(index_model(*old(sets)), name@, roleid));
}

/// What the build has covered when `done` rows are finished and `taken`
/// names of the next row are in.
spec fn covered(
    rows: Seq<RolePermission>,
    done: int,
    taken: int,
    name: Seq<char>,
    roleid: u64,
) -> bool {
    rows_grant(rows.take(done), name, roleid) || (done < rows.len() && rows[done].roleid.0
        == roleid && names_of(rows[done].ids@).take(taken).contains(name))
}

/// The state of the index while it is built.
spec fn built(index: IndexModel, rows: Seq<RolePermission>, done: int, taken: int) -> bool {
    &&& forall|name: Seq<char>| #[trigger]
        index.contains_key(name) <==> exists|roleid: u64| covered(rows, done, taken, name, roleid)
    &&& forall|name: Seq<char>, roleid: u64|
        index.contains_key(name) ==> (#[trigger] index[name].contains(roleid) <==> covered(
            rows,
            done,
            taken,
            name,
            roleid,
        ))
}

/// One more name of the current row is in.
proof fn lemma_built_step(index: IndexModel, rows: Seq<RolePermission>, done: int, taken: int)
    requires
        0 <= done < rows.len(),
        0 <= taken < rows[done].ids.len(),
        built(index, rows, done, taken),
    ensures
        built(
            with_role(index, rows[done].ids[taken]@, rows[done].roleid.0),
            rows,
            done,
            taken + 1,
        ),
{
    let names = names_of(rows[done].ids@);
    let added = rows[done].ids[taken]@;
    let role = rows[done].roleid.0;
    let next = with_role(index, added, role);
    let more = taken + 1;
    assert(names[taken] == added);
    assert(names.take(taken + 1) =~= names.take(taken).push(added));
    assert forall|name: Seq<char>, roleid: u64|
        covered(rows, done, more, name, roleid) <==> (covered(rows, done, taken, name, roleid)
            || (name == added && roleid == role)) by {
        vstd::seq_lib::lemma_seq_contains_after_push(names.take(taken), added, name);
    }
    assert forall|name: Seq<char>| #[trigger]
        next.contains_key(name) <==> exists|roleid: u64|
            covered(rows, done, more, name, roleid) by {
        if next.contains_key(name) {
            if name == added {
                assert(covered(rows, done, more, name, role));
            } else {
                assert(index.contains_key(name));
                let r = choose|roleid: u64| covered(rows, done, taken, name, roleid);
                assert(covered(rows, done, more, name, r));
            }
        }
        if exists|roleid: u64| covered(rows, done, more, name, roleid) {
            let r = choose|roleid: u64| covered(rows, done, more, name, roleid);
            if !(name == added) {
                assert(covered(rows, done, taken, name, r));
            }
        }
    }
    assert forall|name: Seq<char>, roleid: u64| next.contains_key(name) implies (
    #[trigger] next[name].contains(roleid) <==> covered(rows, done, more, name, roleid)) by {
        if name == added {
            if index.contains_key(name) {
                assert(index[name].contains(roleid) <==> covered(rows, done, taken, name, roleid));
            } else {
                assert(!covered(rows, done, taken, name, roleid));
            }
        } else {
            assert(index.contains_key(name));
            assert(index[name].contains(roleid) <==> covered(rows, done, taken, name, roleid));
        }
    }
}

/// The current row is finished.
proof fn lemma_built_row(index: IndexModel, rows: Seq<RolePermission>, done: int)
    requires
        0 <= done < rows.len(),
        built(index, rows, done, rows[done].ids.len() as int),
    ensures
        built(index, rows, done + 1, 0),
{
    let names = names_of(rows[done].ids@);
    let all = names.len() as int;
    let after_row = done + 1;
    assert(names.take(names.len() as int) =~= names);
    assert forall|name: Seq<char>, roleid: u64|
        covered(rows, done, all, name, roleid) <==> covered(
            rows,
            after_row,
            0,
            name,
            roleid,
        ) by {
        let before = rows.take(done);
        let after = rows.take(done + 1);
        if done + 1 < rows.len() {
            assert(!names_of(rows[done + 1].ids@).take(0).contains(name));
        }
        if rows_grant(before, name, roleid) {
            let i = choose|i: int|
                0 <= i < before.len() && (#[trigger] before[i]).roleid.0 == roleid && names_of(
                    before[i].ids@,
                ).contains(name);
            assert(after[i] == before[i]);
        }
        if rows[done].roleid.0 == roleid && names.contains(name) {
            assert(after[done] == rows[done]);
        }
        if rows_grant(after, name, roleid) {
            let i = choose|i: int|
                0 <= i < after.len() && (#[trigger] after[i]).roleid.0 == roleid && names_of(
                    after[i].ids@,
                ).contains(name);
            if i < done {
                assert(before[i] == after[i]);
            }
        }
    }
    assert forall|name: Seq<char>| #[trigger]
        index.contains_key(name) <==> exists|roleid: u64|
            covered(rows, after_row, 0, name, roleid) by {
        if index.contains_key(name) {
            let r = choose|roleid: u64| covered(rows, done, all, name, roleid);
            assert(covered(rows, after_row, 0, name, r));
        }
        if exists|roleid: u64| covered(rows, after_row, 0, name, roleid) {
            let r = choose|roleid: u64| covered(rows, after_row, 0, name, roleid);
            assert(covered(rows, done, all, name, r));
        }
    }
    assert forall|name: Seq<char>, roleid: u64| index.contains_key(name) implies (
    #[trigger] index[name].contains(roleid) <==> covered(rows, after_row, 0, name, roleid)) by {
        assert(index[name].contains(roleid) <==> covered(
            rows,
            done,
            all,
            name,
            roleid,
        ));
    }
}

/// Every row is finished: the index is the one of the rows.
proof fn lemma_built_all(index: IndexModel, rows: Seq<RolePermission>)
    requires
        built(index, rows, rows.len() as int, 0),
    ensures
        index == index_of(rows),
{
    let total = rows.len() as int;
    assert(rows.take(total) =~= rows);
    let goal = index_of(rows);
    assert forall|name: Seq<char>| index.contains_key(name) <==> goal.contains_key(name) by {
        if index.contains_key(name) {
            let r = choose|roleid: u64| covered(rows, total, 0, name, roleid);
            assert(rows_grant(rows, name, r));
        }
        if rows_name(rows, name) {
            let i = choose|i: int|
                0 <= i < rows.len() && names_of((#[trigger] rows[i]).ids@).contains(name);
            assert(rows_grant(rows, name, rows[i].roleid.0));
            assert(covered(rows, total, 0, name, rows[i].roleid.0));
        }
    }
    assert forall|name: Seq<char>| index.contains_key(name) implies index[name] == goal[name] by {
        assert forall|roleid: u64| index[name].contains(roleid) <==> goal[name].contains(
            roleid,
        ) by {
            assert(index[name].contains(roleid) <==> covered(
                rows,
                total,
                0,
                name,
                roleid,
            ));
        }
        assert(index[name] =~= goal[name]);
    }
    assert(index =~= goal);
}

/// Builds the index of a guild from its rows of `role_permission`.
pub fn build_role_index(rows: &Vec<RolePermission>) -> (sets: RoleSets)
    ensures
        index_model(sets) == index_of(rows@),
{
    let mut sets: RoleSets = StringHashMap::with_capacity(rows.len());
    let mut i: usize = 0;
    proof {
        assert forall|name: Seq<char>, roleid: u64| !covered(rows@, 0, 0, name, roleid) by {
            if rows@.len() > 0 {
                assert(!names_of(rows@[0].ids@).take(0).contains(name));
            }
        }
        assert(index_model(sets) =~= IndexModel::empty());
    }
    while i < rows.len()
        invariant
            i <= rows.len(),
            built(index_model(sets), rows@, i as int, 0),
        decreases rows.len() - i,
    {
        let row = &rows[i];
        let mut j: usize = 0;
        while j < row.ids.len()
            invariant
                i < rows.len(),
                *row == rows@[i as int],
                j <= row.ids.len(),
                built(index_model(sets), rows@, i as int, j as int),
            decreases row.ids.len() - j,
        {
            proof {
                lemma_built_step(index_model(sets), rows@, i as int, j as int);
            }
            insert_role(&mut sets, row.ids[j].as_str(), row.roleid.0);
            j += 1;
        }
        proof {
            lemma_built_row(index_model(sets), rows@, i as int);
        }
        i += 1;
    }
    proof {
        lemma_built_all(index_model(sets), rows@);
    }
    sets
}

/// Asks the index whether the role holds `name`: `None` when the index does
/// not know the name.
pub fn index_lookup(sets: &RoleSets, roleid: u64, name: &str) -> (answer: Option<bool>)
    ensures
        answer == lookup(index_model(*sets), name@, roleid),
{
    broadcast use group_hash_axioms;

    match sets.get(name) {
        Some(roles) => Some(roles.contains(&roleid)),
        None => None,
    }
}

/// Whether the index gives `name` to one of `roles`.
pub fn any_role_in_index(sets: &RoleSets, roles: &[u64], name: &str) -> (granted: bool)
    ensures
        granted == any_role_grants(index_model(*sets), roles@, name@),
{
    let mut k: usize = 0;
    while k < roles.len()
        invariant
            k <= roles.len(),
            forall|l: int|
                0 <= l < k ==> !index_grants(index_model(*sets), name@, #[trigger] roles@[l]),
        decreases roles.len() - k,
    {
        match index_lookup(sets, roles[k], name) {
            Some(true) => {
                return true;
            },
            _ => {},
        }
        k += 1;
    }
    false
}

} // verus!
