//! One table of grants, keyed by guild and subject.
//!
//! Both tables of the store have this shape: the subject is a user in
//! `user_permission` and a role in `role_permission`. A table holds at most
//! one row per key, numbers its rows from a serial that only grows, and keeps
//! every grant list free of duplicates.

use crate::database::Id;
use crate::error::StoreError;
use crate::grants::{add_name, copy_names, holds, names_of, remove_name, with_name, without_name};
use crate::grants::{lemma_with_name, lemma_without_name};
use crate::rows::RolePermission;
use vstd::prelude::*;
use vstd::string::StringExecFns;

verus! {

/// A row as contracts see it: its id and the names it holds, in order.
pub struct RowModel {
    pub uid: i64,
    pub names: Seq<Seq<char>>,
}

/// A table as contracts see it: at most one row for each (guild, subject).
pub type TableModel = Map<(u64, u64), RowModel>;

/// The table after the row for `key` was made sure of: a missing row is
/// created empty under the id `serial`, an existing one is left as it is.
pub open spec fn ensured(rows: TableModel, serial: i64, key: (u64, u64)) -> TableModel {
    if rows.contains_key(key) {
        rows
    } else {
        rows.insert(key, RowModel { uid: serial, names: Seq::empty() })
    }
}

/// The table after `name` was granted in the row for `key`. Without such a
/// row nothing changes.
pub open spec fn granted(rows: TableModel, key: (u64, u64), name: Seq<char>) -> TableModel {
    if rows.contains_key(key) {
        rows.insert(key, RowModel { uid: rows[key].uid, names: with_name(rows[key].names, name) })
    } else {
        rows
    }
}

/// The table after `name` was revoked in the row for `key`. Without such a
/// row nothing changes.
pub open spec fn revoked(rows: TableModel, key: (u64, u64), name: Seq<char>) -> TableModel {
    if rows.contains_key(key) {
        rows.insert(
            key,
            RowModel { uid: rows[key].uid, names: without_name(rows[key].names, name) },
        )
    } else {
        rows
    }
}

/// Whether the row for `key` exists and holds `name`.
pub open spec fn has_exact(rows: TableModel, key: (u64, u64), name: Seq<char>) -> bool {
    rows.contains_key(key) && rows[key].names.contains(name)
}

/// A copy of one row, handed out by the table.
pub struct GrantRow {
    pub uid: i64,
    pub guildid: u64,
    pub subject: u64,
    pub ids: Vec<String>,
}

impl GrantRow {
    /// The key under which the table holds the row.
    pub open spec fn key(self) -> (u64, u64) {
        (self.guildid, self.subject)
    }

    /// The row as contracts see it.
    pub open spec fn model(self) -> RowModel {
        RowModel { uid: self.uid, names: names_of(self.ids@) }
    }
}

/// Whether `row` is the role row that the table holds under the key.
pub open spec fn is_role_row(row: RolePermission, roles: TableModel, guildid: u64, roleid: u64)
    -> bool {
    &&& roles.contains_key((guildid, roleid))
    &&& row.guildid.0 == guildid
    &&& row.roleid.0 == roleid
    &&& row.uid == roles[(guildid, roleid)].uid
    &&& names_of(row.ids@) == roles[(guildid, roleid)].names
}

/// Whether `rows` are the role rows of the guild: each once, as the table
/// holds it, by ascending row id.
pub open spec fn lists_roles(rows: Seq<RolePermission>, roles: TableModel, guildid: u64) -> bool {
    &&& forall|i: int|
        0 <= i < rows.len() ==> is_role_row(#[trigger] rows[i], roles, guildid, rows[i].roleid.0)
    &&& forall|i: int, j: int|
        0 <= i < j < rows.len() ==> (#[trigger] rows[i]).uid < (#[trigger] rows[j]).uid
    &&& forall|roleid: u64| #[trigger]
        roles.contains_key((guildid, roleid)) ==> exists|i: int|
            0 <= i < rows.len() && (#[trigger] rows[i]).roleid.0 == roleid
}

/// The text of the failure that ends a table's serial.
pub open spec fn exhausted_text() -> Seq<char> {
    "row id sequence exhausted"@
}

/// A table of grants.
pub struct GrantTable {
    rows: Vec<GrantRow>,
    serial: i64,
}

impl View for GrantTable {
    type V = TableModel;

    closed spec fn view(&self) -> TableModel {
        Map::new(
            |key: (u64, u64)| exists|i: int| 0 <= i < self.rows.len() && self.rows[i].key() == key,
            |key: (u64, u64)|
                self.rows[choose|i: int| 0 <= i < self.rows.len() && self.rows[i].key()
                    == key].model(),
        )
    }
}

impl GrantTable {
    /// The id that the next new row gets.
    pub closed spec fn serial(&self) -> i64 {
        self.serial
    }

    /// The table's invariant: one row per key, row ids ascending and below
    /// the serial, no name twice in a row.
    pub closed spec fn wf(&self) -> bool {
        &&& forall|i: int, j: int|
            0 <= i < j < self.rows.len() ==> (#[trigger] self.rows[i]).key() != (
            #[trigger] self.rows[j]).key()
        &&& forall|i: int, j: int|
            0 <= i < j < self.rows.len() ==> (#[trigger] self.rows[i]).uid < (
            #[trigger] self.rows[j]).uid
        &&& forall|i: int| 0 <= i < self.rows.len() ==> (#[trigger] self.rows[i]).uid < self.serial
        &&& forall|i: int|
            0 <= i < self.rows.len() ==> names_of((#[trigger] self.rows[i]).ids@).no_duplicates()
    }

    /// Whether the serial has no id left for a new row.
    pub open spec fn exhausted(&self) -> bool {
        self.serial() == i64::MAX
    }

    /// Rows are sets with an identity: in every well-formed table no row
    /// holds a name twice, every row id lies below the serial, and
    /// different rows have different ids.
    pub proof fn law_rows(&self)
        requires
            self.wf(),
        ensures
            forall|key: (u64, u64)| #[trigger]
                self@.contains_key(key) ==> self@[key].names.no_duplicates() && self@[key].uid
                    < self.serial(),
            forall|a: (u64, u64), b: (u64, u64)|
                self@.contains_key(a) && self@.contains_key(b) && a != b ==> (#[trigger] self@[a]).uid
                    != (#[trigger] self@[b]).uid,
    {
        assert forall|a: (u64, u64), b: (u64, u64)|
            self@.contains_key(a) && self@.contains_key(b) && a != b implies (#[trigger] self@[a]).uid
            != (#[trigger] self@[b]).uid by {
            let i = choose|i: int| 0 <= i < self.rows.len() && self.rows[i].key() == a;
            let j = choose|j: int| 0 <= j < self.rows.len() && self.rows[j].key() == b;
            assert(i != j);
            if i < j {
                assert(self.rows[i].uid < self.rows[j].uid);
            } else {
                assert(self.rows[j].uid < self.rows[i].uid);
            }
        }
    }

    /// The row at `at` is the one that the model holds for its key.
    proof fn lemma_row_at(&self, at: int)
        requires
            self.wf(),
            0 <= at < self.rows.len(),
        ensures
            self@.contains_key(self.rows[at].key()),
            self@[self.rows[at].key()] == self.rows[at].model(),
    {
        let key = self.rows[at].key();
        let i = choose|i: int| 0 <= i < self.rows.len() && self.rows[i].key() == key;
        if i < at {
            assert(self.rows[i].key() != self.rows[at].key());
        } else if at < i {
            assert(self.rows[at].key() != self.rows[i].key());
        }
    }

    /// An empty table whose first row will get the id 1.
    pub fn new() -> (table: GrantTable)
        ensures
            table.wf(),
            table@ == TableModel::empty(),
            table.serial() == 1,
    {
        GrantTable::starting_at(1)
    }

    /// An empty table whose first row will get the id `first_uid`.
    pub fn starting_at(first_uid: i64) -> (table: GrantTable)
        ensures
            table.wf(),
            table@ == TableModel::empty(),
            table.serial() == first_uid,
    {
        let table = GrantTable { rows: Vec::new(), serial: first_uid };
        assert(table@ =~= TableModel::empty());
        table
    }

    /// The number of rows.
    pub fn len(&self) -> (n: usize)
        requires
            self.wf(),
        ensures
            n == self@.dom().len(),
            self@.dom().finite(),
    {
        proof {
            self.lemma_count(self.rows.len() as int);
            assert(self@.dom() =~= self.keys_below(self.rows.len() as int));
        }
        self.rows.len()
    }

    /// The keys of the first `n` rows.
    spec fn keys_below(&self, n: int) -> Set<(u64, u64)> {
        Set::new(|key: (u64, u64)| exists|i: int| 0 <= i < n && self.rows[i].key() == key)
    }

    /// The first `n` rows have `n` different keys.
    proof fn lemma_count(&self, n: int)
        requires
            self.wf(),
            0 <= n <= self.rows.len(),
        ensures
            self.keys_below(n).finite(),
            self.keys_below(n).len() == n,
        decreases n,
    {
        if n == 0 {
            assert(self.keys_below(0) =~= Set::<(u64, u64)>::empty());
        } else {
            self.lemma_count(n - 1);
            let last = self.rows[n - 1].key();
            assert(!self.keys_below(n - 1).contains(last)) by {
                if self.keys_below(n - 1).contains(last) {
                    let i = choose|i: int| 0 <= i < n - 1 && self.rows[i].key() == last;
                    assert(self.rows[i].key() != self.rows[n - 1].key());
                }
            }
            assert(self.keys_below(n) =~= self.keys_below(n - 1).insert(last)) by {
                assert forall|key: (u64, u64)| self.keys_below(n - 1).insert(last).contains(
                    key,
                ) implies self.keys_below(n).contains(key) by {
                    if key == last {
                        assert(self.rows[n - 1].key() == key);
                    } else {
                        let i = choose|i: int| 0 <= i < n - 1 && self.rows[i].key() == key;
                        assert(0 <= i < n && self.rows[i].key() == key);
                    }
                }
            }
        }
    }

    /// Where the row for the key stands, if there is one.
    fn position(&self, guildid: u64, subject: u64) -> (at: Option<usize>)
        requires
            self.wf(),
        ensures
            at is Some <==> self@.contains_key((guildid, subject)),
            at is Some ==> at->0 < self.rows.len() && self.rows[at->0 as int].key() == (
                guildid,
                subject,
            ) && self@[(guildid, subject)] == self.rows[at->0 as int].model(),
    {
        let mut i: usize = 0;
        while i < self.rows.len()
            invariant
                self.wf(),
                i <= self.rows.len(),
                forall|j: int| 0 <= j < i ==> (#[trigger] self.rows[j]).key() != (guildid, subject),
            decreases self.rows.len() - i,
        {
            if self.rows[i].guildid == guildid && self.rows[i].subject == subject {
                proof {
                    self.lemma_row_at(i as int);
                }
                return Some(i);
            }
            i += 1;
        }
        None
    }

    /// Makes sure that the key has a row: a missing one is created with an
    /// empty grant list, an existing one is not touched. Fails only when a
    /// row is missing and the serial is exhausted.
    pub fn ensure_exists(&mut self, guildid: u64, subject: u64) -> (done: Result<(), StoreError>)
        requires
            old(self).wf(),
        ensures
            final(self).wf(),
            done is Err <==> !old(self)@.contains_key((guildid, subject)) && old(self).exhausted(),
            done is Err ==> final(self)@ == old(self)@ && final(self).serial() == old(
                self,
            ).serial() && done->Err_0.message@ == exhausted_text(),
            done is Ok ==> final(self)@ == ensured(
                old(self)@,
                old(self).serial(),
                (guildid, subject),
            ),
            done is Ok ==> final(self).serial() == if old(self)@.contains_key((guildid, subject)) {
                old(self).serial() as int
            } else {
                old(self).serial() + 1
            },
    {
        match self.position(guildid, subject) {
            Some(_) => Ok(()),
            None => {
                if self.serial == i64::MAX {
                    Err(StoreError { message: String::from_str("row id sequence exhausted") })
                } else {
                    let uid = self.serial;
                    let row = GrantRow { uid, guildid, subject, ids: Vec::new() };
                    assert(names_of(row.ids@) =~= Seq::<Seq<char>>::empty());
                    self.rows.push(row);
                    self.serial = uid + 1;
                    proof {
                        let n = old(self).rows.len() as int;
                        assert(forall|i: int| 0 <= i < n ==> self.rows[i] == old(self).rows[i]);
                        assert(self.wf());
                        let key = (guildid, subject);
                        assert forall|k: (u64, u64)| #[trigger]
                            self@.contains_key(k) <==> ensured(
                                old(self)@,
                                uid,
                                key,
                            ).contains_key(k) by {
                            if old(self)@.contains_key(k) {
                                let i = choose|i: int|
                                    0 <= i < n && old(self).rows[i].key() == k;
                                assert(self.rows[i].key() == k);
                            }
                            if k == key {
                                assert(self.rows[n].key() == k);
                            }
                        }
                        assert forall|k: (u64, u64)| #[trigger]
                            self@.contains_key(k) implies self@[k] == ensured(
                            old(self)@,
                            uid,
                            key,
                        )[k] by {
                            if k == key {
                                self.lemma_row_at(n);
                            } else {
                                let i = choose|i: int|
                                    0 <= i < n && old(self).rows[i].key() == k;
                                self.lemma_row_at(i);
                                old(self).lemma_row_at(i);
                            }
                        }
                        assert(self@ =~= ensured(old(self)@, uid, key));
                    }
                    Ok(())
                }
            }
        }
    }
    /// A copy of the row for the key, if there is one.
    pub fn get(&self, guildid: u64, subject: u64) -> (row: Option<GrantRow>)
        requires
            self.wf(),
        ensures
            row is Some <==> self@.contains_key((guildid, subject)),
            row is Some ==> row->0.key() == (guildid, subject) && row->0.model() == self@[(
                guildid,
                subject,
            )],
    {
        match self.position(guildid, subject) {
            Some(at) => {
                let found = &self.rows[at];
                Some(
                    GrantRow {
                        uid: found.uid,
                        guildid: found.guildid,
                        subject: found.subject,
                        ids: copy_names(&found.ids),
                    },
                )
            },
            None => None,
        }
    }

    /// Whether the row for the key exists and holds `name`.
    pub fn holds(&self, guildid: u64, subject: u64, name: &str) -> (held: bool)
        requires
            self.wf(),
        ensures
            held == has_exact(self@, (guildid, subject), name@),
    {
        match self.position(guildid, subject) {
            Some(at) => holds(&self.rows[at].ids, name),
            None => false,
        }
    }

    /// Grants `name` in the row for the key. Granting a name that the row
    /// holds, or granting without a row, changes nothing.
    pub fn grant(&mut self, guildid: u64, subject: u64, name: &str)
        requires
            old(self).wf(),
        ensures
            final(self).wf(),
            final(self)@ == granted(old(self)@, (guildid, subject), name@),
            final(self).serial() == old(self).serial(),
    {
        match self.position(guildid, subject) {
            Some(at) => {
                let mut ids = copy_names(&self.rows[at].ids);
                add_name(&mut ids, name);
                proof {
                    lemma_with_name(names_of(old(self).rows[at as int].ids@), name@);
                }
                self.replace_ids(at, ids);
            },
            None => {},
        }
    }

    /// Revokes `name` in the row for the key. Revoking a name that the row
    /// does not hold, or revoking without a row, changes nothing.
    pub fn revoke(&mut self, guildid: u64, subject: u64, name: &str)
        requires
            old(self).wf(),
        ensures
            final(self).wf(),
            final(self)@ == revoked(old(self)@, (guildid, subject), name@),
            final(self).serial() == old(self).serial(),
    {
        match self.position(guildid, subject) {
            Some(at) => {
                let mut ids = copy_names(&self.rows[at].ids);
                remove_name(&mut ids, name);
                proof {
                    lemma_without_name(names_of(old(self).rows[at as int].ids@), name@);
                }
                self.replace_ids(at, ids);
            },
            None => {},
        }
    }

    /// Puts `ids` in place of the grant list of the row at `at`.
    fn replace_ids(&mut self, at: usize, ids: Vec<String>)
        requires
            old(self).wf(),
            at < old(self).rows.len(),
            names_of(ids@).no_duplicates(),
        ensures
            final(self).wf(),
            final(self).serial() == old(self).serial(),
            final(self)@ == old(self)@.insert(
                old(self).rows[at as int].key(),
                RowModel { uid: old(self).rows[at as int].uid, names: names_of(ids@) },
            ),
    {
        let uid = self.rows[at].uid;
        let guildid = self.rows[at].guildid;
        let subject = self.rows[at].subject;
        self.rows.set(at, GrantRow { uid, guildid, subject, ids });
        proof {
            let n = self.rows.len() as int;
            let key = (guildid, subject);
            let goal = old(self)@.insert(key, RowModel { uid, names: names_of(ids@) });
            assert(forall|i: int|
                0 <= i < n ==> (#[trigger] self.rows[i]).key() == old(self).rows[i].key()
                    && self.rows[i].uid == old(self).rows[i].uid);
            assert(self.wf());
            old(self).lemma_row_at(at as int);
            assert forall|k: (u64, u64)| #[trigger] self@.contains_key(k) <==> goal.contains_key(
                k,
            ) by {
                if self@.contains_key(k) {
                    let i = choose|i: int| 0 <= i < n && self.rows[i].key() == k;
                    assert(old(self).rows[i].key() == k);
                }
                if old(self)@.contains_key(k) {
                    let i = choose|i: int| 0 <= i < n && old(self).rows[i].key() == k;
                    assert(self.rows[i].key() == k);
                }
            }
            assert forall|k: (u64, u64)| #[trigger] self@.contains_key(k) implies self@[k]
                == goal[k] by {
                let i = choose|i: int| 0 <= i < n && self.rows[i].key() == k;
                self.lemma_row_at(i);
                old(self).lemma_row_at(i);
                if i != at {
                    assert(self.rows[i] == old(self).rows[i]);
                    if i < at {
                        assert(old(self).rows[i].key() != old(self).rows[at as int].key());
                    } else {
                        assert(old(self).rows[at as int].key() != old(self).rows[i].key());
                    }
                }
            }
            assert(self@ =~= goal);
        }
    }

    /// The rows of one guild, read as role rows, by ascending row id.
    pub fn rows_of(&self, guildid: u64) -> (listing: Vec<RolePermission>)
        requires
            self.wf(),
        ensures
            lists_roles(listing@, self@, guildid),
    {
        let mut listing: Vec<RolePermission> = Vec::new();
        let ghost mut origin: Seq<int> = Seq::empty();
        let mut i: usize = 0;
        while i < self.rows.len()
            invariant
                self.wf(),
                i <= self.rows.len(),
                origin.len() == listing.len(),
                forall|k: int|
                    0 <= k < listing.len() ==> 0 <= (#[trigger] origin[k]) < i && listing[k].uid
                        == self.rows[origin[k]].uid && listing[k].guildid.0 == guildid
                        && self.rows[origin[k]].guildid == guildid && listing[k].roleid.0
                        == self.rows[origin[k]].subject && names_of(listing[k].ids@) == names_of(
                        self.rows[origin[k]].ids@,
                    ),
                forall|k: int, l: int|
                    0 <= k < l < listing.len() ==> (#[trigger] origin[k]) < (#[trigger] origin[l]),
                forall|j: int|
                    0 <= j < i && (#[trigger] self.rows[j]).guildid == guildid ==> exists|k: int|
                        0 <= k < listing.len() && (#[trigger] origin[k]) == j,
            decreases self.rows.len() - i,
        {
            if self.rows[i].guildid == guildid {
                let found = &self.rows[i];
                let copy = RolePermission {
                    uid: found.uid,
                    guildid: Id(found.guildid),
                    roleid: Id(found.subject),
                    ids: copy_names(&found.ids),
                };
                let ghost before = listing@;
                let ghost origin_before = origin;
                listing.push(copy);
                proof {
                    origin = origin.push(i as int);
                    assert forall|j: int|
                        0 <= j < i + 1 && (#[trigger] self.rows[j]).guildid
                            == guildid implies exists|k: int|
                        0 <= k < listing.len() && (#[trigger] origin[k]) == j by {
                        if j < i {
                            let k = choose|k: int|
                                0 <= k < before.len() && (#[trigger] origin_before[k]) == j;
                            assert(origin[k] == j);
                        } else {
                            assert(origin[before.len() as int] == j);
                        }
                    }
                }
            }
            i += 1;
        }
        proof {
            assert forall|k: int| 0 <= k < listing.len() implies is_role_row(
                #[trigger] listing@[k],
                self@,
                guildid,
                listing@[k].roleid.0,
            ) by {
                self.lemma_row_at(origin[k]);
            }
            assert forall|k: int, l: int| 0 <= k < l < listing.len() implies (
            #[trigger] listing@[k]).uid < (#[trigger] listing@[l]).uid by {
                assert(origin[k] < origin[l]);
                assert(self.rows[origin[k]].uid < self.rows[origin[l]].uid);
            }
            assert forall|roleid: u64| #[trigger]
                self@.contains_key((guildid, roleid)) implies exists|k: int|
                0 <= k < listing.len() && (#[trigger] listing@[k]).roleid.0 == roleid by {
                let j = choose|j: int|
                    0 <= j < self.rows.len() && self.rows[j].key() == (guildid, roleid);
                assert(self.rows[j].guildid == guildid);
                let k = choose|k: int| 0 <= k < listing.len() && (#[trigger] origin[k]) == j;
                assert(listing@[k].roleid.0 == roleid);
            }
        }
        listing
    }
}

} // verus!
