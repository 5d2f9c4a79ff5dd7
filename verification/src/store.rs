//! The store of grants, held in memory: the table of direct grants, keyed by
//! guild and user, and the table of role grants, keyed by guild and role.
//!
//! A row comes into being the first time that anything touches its key, with
//! an empty grant list, and is never deleted.

use crate::database::Id;
use crate::error::StoreError;
use crate::grants::names_of;
use crate::index::{index_of, rows_grant, rows_name, IndexModel};
use crate::rows::{RolePermission, UserPermission};
use crate::table::{ensured, exhausted_text, granted, has_exact, is_role_row, lists_roles};
use crate::table::{revoked, GrantRow, GrantTable, TableModel};
use vstd::prelude::*;

verus! {

/// The index that a table of role grants gives for one guild: it knows the
/// names that some role of the guild holds, and lists for each its holders.
pub open spec fn guild_index(roles: TableModel, guildid: u64) -> IndexModel {
    Map::new(
        |name: Seq<char>| exists|roleid: u64| has_exact(roles, (guildid, roleid), name),
        |name: Seq<char>| Set::new(|roleid: u64| has_exact(roles, (guildid, roleid), name)),
    )
}

/// Whether `row` is the user row that the table holds under the key.
pub open spec fn is_user_row(row: UserPermission, users: TableModel, guildid: u64, userid: u64)
    -> bool {
    &&& users.contains_key((guildid, userid))
    &&& row.guildid.0 == guildid
    &&& row.userid.0 == userid
    &&& row.uid == users[(guildid, userid)].uid
    &&& names_of(row.ids@) == users[(guildid, userid)].names
}

/// The index of a guild's listed rows is the index that the table gives for
/// the guild.
pub proof fn lemma_listed_index(rows: Seq<RolePermission>, roles: TableModel, guildid: u64)
    requires
        lists_roles(rows, roles, guildid),
    ensures
        index_of(rows) == guild_index(roles, guildid),
{
    let built = index_of(rows);
    let goal = guild_index(roles, guildid);
    assert forall|name: Seq<char>, roleid: u64|
        rows_grant(rows, name, roleid) <==> has_exact(roles, (guildid, roleid), name) by {
        if rows_grant(rows, name, roleid) {
            let i = choose|i: int|
                0 <= i < rows.len() && (#[trigger] rows[i]).roleid.0 == roleid && names_of(
                    rows[i].ids@,
                ).contains(name);
            assert(is_role_row(rows[i], roles, guildid, roleid));
        }
        if has_exact(roles, (guildid, roleid), name) {
            let i = choose|i: int| 0 <= i < rows.len() && (#[trigger] rows[i]).roleid.0 == roleid;
            assert(is_role_row(rows[i], roles, guildid, roleid));
        }
    }
    assert forall|name: Seq<char>| built.contains_key(name) <==> goal.contains_key(name) by {
        if rows_name(rows, name) {
            let i = choose|i: int|
                0 <= i < rows.len() && names_of((#[trigger] rows[i]).ids@).contains(name);
            assert(rows_grant(rows, name, rows[i].roleid.0));
            assert(has_exact(roles, (guildid, rows[i].roleid.0), name));
        }
        if goal.contains_key(name) {
            let roleid = choose|roleid: u64| has_exact(roles, (guildid, roleid), name);
            assert(rows_grant(rows, name, roleid));
        }
    }
    assert forall|name: Seq<char>| built.contains_key(name) implies built[name] == goal[name] by {
        assert(built[name] =~= goal[name]);
    }
    assert(built =~= goal);
}

/// What the store's count of the user's rows that hold the permission
/// means: the key has one row at most, so the permission is held exactly
/// when the count is 1.
pub fn is_exact_match(count: i64) -> (held: bool)
    ensures
        held == (count == 1),
{
    count == 1
}

/// The two tables.
pub struct PermissionStore {
    pub users: GrantTable,
    pub roles: GrantTable,
}

impl PermissionStore {
    /// The store's invariant: both tables are well formed.
    pub open spec fn wf(&self) -> bool {
        self.users.wf() && self.roles.wf()
    }

    /// A store without rows.
    pub fn new() -> (store: PermissionStore)
        ensures
            store.wf(),
            store.users@ == TableModel::empty(),
            store.roles@ == TableModel::empty(),
            store.users.serial() == 1,
            store.roles.serial() == 1,
    {
        PermissionStore { users: GrantTable::new(), roles: GrantTable::new() }
    }

    /// A store without rows whose tables number their rows from `first_uid`.
    pub fn starting_at(first_uid: i64) -> (store: PermissionStore)
        ensures
            store.wf(),
            store.users@ == TableModel::empty(),
            store.roles@ == TableModel::empty(),
            store.users.serial() == first_uid,
            store.roles.serial() == first_uid,
    {
        PermissionStore {
            users: GrantTable::starting_at(first_uid),
            roles: GrantTable::starting_at(first_uid),
        }
    }

    /// Makes sure that the user has a row in the guild. A missing row is
    /// created without grants; an existing row keeps its grants. Fails only
    /// when a row is missing and the table's serial is exhausted.
    pub fn create_permission_if_not_exists(&mut self, userid: u64, guildid: u64) -> (done: Result<
        (),
        StoreError,
    >)
        requires
            old(self).wf(),
        ensures
            final(self).wf(),
            final(self).roles == old(self).roles,
            done is Err <==> !old(self).users@.contains_key((guildid, userid)) && old(
                self,
            ).users.exhausted(),
            done is Err ==> final(self).users@ == old(self).users@ && final(self).users.serial()
                == old(self).users.serial() && done->Err_0.message@ == exhausted_text(),
            done is Ok ==> final(self).users@ == ensured(
                old(self).users@,
                old(self).users.serial(),
                (guildid, userid),
            ),
            done is Ok ==> final(self).users.serial() == if old(self).users@.contains_key((guildid, userid)) {
                old(self).users.serial() as int
            } else {
                old(self).users.serial() + 1
            },
    {
        self.users.ensure_exists(guildid, userid)
    }

    /// The user's row in the guild, if there is one.
    pub fn get_permission(&self, userid: u64, guildid: u64) -> (row: Option<UserPermission>)
        requires
            self.wf(),
        ensures
            row is Some <==> self.users@.contains_key((guildid, userid)),
            row is Some ==> is_user_row(row->0, self.users@, guildid, userid),
    {
        match self.users.get(guildid, userid) {
            Some(found) => Some(
                UserPermission {
                    uid: found.uid,
                    guildid: Id(found.guildid),
                    userid: Id(found.subject),
                    ids: found.ids,
                },
            ),
            None => None,
        }
    }

    /// Whether the user's row in the guild holds exactly this permission.
    pub fn has_exact(&self, userid: u64, guildid: u64, permission: &str) -> (held: bool)
        requires
            self.wf(),
        ensures
            held == has_exact(self.users@, (guildid, userid), permission@),
    {
        self.users.holds(guildid, userid, permission)
    }

    /// Grants the permission to the user in the guild, creating the user's
    /// row when it is missing. Granting a held permission changes nothing.
    pub fn grant(&mut self, userid: u64, guildid: u64, permission: &str) -> (done: Result<
        (),
        StoreError,
    >)
        requires
            old(self).wf(),
        ensures
            final(self).wf(),
            final(self).roles == old(self).roles,
            done is Err <==> !old(self).users@.contains_key((guildid, userid)) && old(
                self,
            ).users.exhausted(),
            done is Err ==> final(self).users@ == old(self).users@ && final(self).users.serial()
                == old(self).users.serial() && done->Err_0.message@ == exhausted_text(),
            done is Ok ==> final(self).users@ == granted(
                ensured(old(self).users@, old(self).users.serial(), (guildid, userid)),
                (guildid, userid),
                permission@,
            ),
            done is Ok ==> final(self).users.serial() == if old(self).users@.contains_key((guildid, userid)) {
                old(self).users.serial() as int
            } else {
                old(self).users.serial() + 1
            },
    {
        match self.users.ensure_exists(guildid, userid) {
            Ok(()) => {
                self.users.grant(guildid, userid, permission);
                Ok(())
            },
            Err(e) => Err(e),
        }
    }

    /// Revokes the permission from the user in the guild, creating the
    /// user's row when it is missing. Revoking a permission that is not
    /// held changes nothing.
    pub fn revoke(&mut self, userid: u64, guildid: u64, permission: &str) -> (done: Result<
        (),
        StoreError,
    >)
        requires
            old(self).wf(),
        ensures
            final(self).wf(),
            final(self).roles == old(self).roles,
            done is Err <==> !old(self).users@.contains_key((guildid, userid)) && old(
                self,
            ).users.exhausted(),
            done is Err ==> final(self).users@ == old(self).users@ && final(self).users.serial()
                == old(self).users.serial() && done->Err_0.message@ == exhausted_text(),
            done is Ok ==> final(self).users@ == revoked(
                ensured(old(self).users@, old(self).users.serial(), (guildid, userid)),
                (guildid, userid),
                permission@,
            ),
            done is Ok ==> final(self).users.serial() == if old(self).users@.contains_key((guildid, userid)) {
                old(self).users.serial() as int
            } else {
                old(self).users.serial() + 1
            },
    {
        match self.users.ensure_exists(guildid, userid) {
            Ok(()) => {
                self.users.revoke(guildid, userid, permission);
                Ok(())
            },
            Err(e) => Err(e),
        }
    }

    /// Makes sure that the role has a row in the guild. A missing row is
    /// created without grants; an existing row keeps its grants. Fails only
    /// when a row is missing and the table's serial is exhausted.
    pub fn create_role_permission_if_not_exist(&mut self, roleid: u64, guildid: u64) -> (done:
        Result<(), StoreError>)
        requires
            old(self).wf(),
        ensures
            final(self).wf(),
            final(self).users == old(self).users,
            done is Err <==> !old(self).roles@.contains_key((guildid, roleid)) && old(
                self,
            ).roles.exhausted(),
            done is Err ==> final(self).roles@ == old(self).roles@ && final(self).roles.serial()
                == old(self).roles.serial() && done->Err_0.message@ == exhausted_text(),
            done is Ok ==> final(self).roles@ == ensured(
                old(self).roles@,
                old(self).roles.serial(),
                (guildid, roleid),
            ),
            done is Ok ==> final(self).roles.serial() == if old(self).roles@.contains_key((guildid, roleid)) {
                old(self).roles.serial() as int
            } else {
                old(self).roles.serial() + 1
            },
    {
        self.roles.ensure_exists(guildid, roleid)
    }

    /// The role's row in the guild, if there is one.
    pub fn get_role_permission(&self, roleid: u64, guildid: u64) -> (row: Option<RolePermission>)
        requires
            self.wf(),
        ensures
            row is Some <==> self.roles@.contains_key((guildid, roleid)),
            row is Some ==> is_role_row(row->0, self.roles@, guildid, roleid),
    {
        match self.roles.get(guildid, roleid) {
            Some(found) => Some(role_row(found)),
            None => None,
        }
    }

    /// Grants the permission to the role in the guild, creating the role's
    /// row when it is missing. Granting a held permission changes nothing.
    pub fn grant_role(&mut self, roleid: u64, guildid: u64, permission: &str) -> (done: Result<
        (),
        StoreError,
    >)
        requires
            old(self).wf(),
        ensures
            final(self).wf(),
            final(self).users == old(self).users,
            done is Err <==> !old(self).roles@.contains_key((guildid, roleid)) && old(
                self,
            ).roles.exhausted(),
            done is Err ==> final(self).roles@ == old(self).roles@ && final(self).roles.serial()
                == old(self).roles.serial() && done->Err_0.message@ == exhausted_text(),
            done is Ok ==> final(self).roles@ == granted(
                ensured(old(self).roles@, old(self).roles.serial(), (guildid, roleid)),
                (guildid, roleid),
                permission@,
            ),
            done is Ok ==> final(self).roles.serial() == if old(self).roles@.contains_key((guildid, roleid)) {
                old(self).roles.serial() as int
            } else {
                old(self).roles.serial() + 1
            },
    {
        match self.roles.ensure_exists(guildid, roleid) {
            Ok(()) => {
                self.roles.grant(guildid, roleid, permission);
                Ok(())
            },
            Err(e) => Err(e),
        }
    }

    /// Revokes the permission from the role in the guild, creating the
    /// role's row when it is missing. Revoking a permission that is not held
    /// changes nothing.
    pub fn revoke_role(&mut self, roleid: u64, guildid: u64, permission: &str) -> (done: Result<
        (),
        StoreError,
    >)
        requires
            old(self).wf(),
        ensures
            final(self).wf(),
            final(self).users == old(self).users,
            done is Err <==> !old(self).roles@.contains_key((guildid, roleid)) && old(
                self,
            ).roles.exhausted(),
            done is Err ==> final(self).roles@ == old(self).roles@ && final(self).roles.serial()
                == old(self).roles.serial() && done->Err_0.message@ == exhausted_text(),
            done is Ok ==> final(self).roles@ == revoked(
                ensured(old(self).roles@, old(self).roles.serial(), (guildid, roleid)),
                (guildid, roleid),
                permission@,
            ),
            done is Ok ==> final(self).roles.serial() == if old(self).roles@.contains_key((guildid, roleid)) {
                old(self).roles.serial() as int
            } else {
                old(self).roles.serial() + 1
            },
    {
        match self.roles.ensure_exists(guildid, roleid) {
            Ok(()) => {
                self.roles.revoke(guildid, roleid, permission);
                Ok(())
            },
            Err(e) => Err(e),
        }
    }

    /// Every role row of the guild, by ascending row id.
    pub fn list_role_permissions(&self, guildid: u64) -> (rows: Vec<RolePermission>)
        requires
            self.wf(),
        ensures
            lists_roles(rows@, self.roles@, guildid),
            index_of(rows@) == guild_index(self.roles@, guildid),
    {
        let rows = self.roles.rows_of(guildid);
        proof {
            lemma_listed_index(rows@, self.roles@, guildid);
        }
        rows
    }
}

/// The role row that a row of the table stands for.
fn role_row(found: GrantRow) -> (row: RolePermission)
    ensures
        row.uid == found.uid,
        row.guildid.0 == found.guildid,
        row.roleid.0 == found.subject,
        row.ids == found.ids,
{
    RolePermission {
        uid: found.uid,
        guildid: Id(found.guildid),
        roleid: Id(found.subject),
        ids: found.ids,
    }
}

} // verus!
