//! The permission engine over the store in memory: registry, store, cache
//! and log in one value.
//!
//! A check runs the machine of [`crate::check`] against the store of
//! [`crate::store`]. A permission that nobody registered is never granted:
//! a check denies it, and the engine lets only registered names into the
//! store.

use crate::cache::{cached, installed, lemma_installed, lemma_touched, touched};
use crate::cache::{CacheModel, RoleCache};
use crate::check::{ensure_failure, step, unregistered_warning};
use crate::check::{Action, ActionModel, Event, Phase, Question};
use crate::commands::{admitted, change_reply, manage_name, name_view, parsed, reply_view};
use crate::commands::{ensure_error, view_reply, view_target, Change, Subject};
use crate::error::{Error, ErrorModel, Reason, ReasonModel};
use crate::grants::names_of;
use crate::guard::{answer_view, guarded, guarded_or_admin, leave_view, verdict_view};
use crate::index::{any_role_grants, build_role_index, index_grants, index_lookup, IndexModel};
use crate::registry::{add_permission, law_registry_is_a_set, registered_all, slice_names};
use crate::registry::{static_get_permission, PermissionRegistry};
use crate::registry::PERMISSION_MANAGE;
use crate::steps::{change_step, view_step, Order, Report, Request, Stage, ViewRequest};
use crate::store::{guild_index, PermissionStore};
use crate::table::{ensured, exhausted_text, granted, has_exact, revoked, TableModel};
use vstd::pervasive::unreached;
use vstd::prelude::*;

verus! {

/// The index that answers for the guild: the cached one if there is one,
/// else the one that the role table gives.
pub open spec fn answering_index(cache: CacheModel, roles: TableModel, guildid: u64) -> IndexModel {
    match cached(cache, guildid) {
        Some(index) => index,
        None => guild_index(roles, guildid),
    }
}

/// The verdict of a check: a direct grant, or a grant to a held role by the
/// answering index.
pub open spec fn verdict(
    users: TableModel,
    roles: TableModel,
    cache: CacheModel,
    userid: u64,
    guildid: u64,
    held: Seq<u64>,
    permission: Seq<char>,
) -> bool {
    has_exact(users, (guildid, userid), permission) || any_role_grants(
        answering_index(cache, roles, guildid),
        held,
        permission,
    )
}

/// The cache after a check. It is used only where the roles are asked:
/// then the guild's entry counts as used, and a guild without one gets the
/// index that the role table gives.
pub open spec fn cache_after_check(
    users: TableModel,
    roles: TableModel,
    cache: CacheModel,
    limit: nat,
    userid: u64,
    guildid: u64,
    held: Seq<u64>,
    permission: Seq<char>,
) -> CacheModel {
    if has_exact(users, (guildid, userid), permission) || held.len() == 0 {
        cache
    } else {
        match cached(cache, guildid) {
            Some(_) => touched(cache, guildid),
            None => installed(cache, limit, guildid, guild_index(roles, guildid)),
        }
    }
}

/// Whether every name that the table holds is registered.
pub open spec fn table_known(table: TableModel, registry: Seq<Seq<char>>) -> bool {
    forall|key: (u64, u64), name: Seq<char>| #[trigger]
        has_exact(table, key, name) ==> registry.contains(name)
}

/// Whether every name that a cached index knows is registered.
pub open spec fn cache_known(cache: CacheModel, registry: Seq<Seq<char>>) -> bool {
    forall|guildid: u64, name: Seq<char>|
        cached(cache, guildid) is Some && (#[trigger] cached(cache, guildid)->0.contains_key(name))
            ==> registry.contains(name)
}

/// Whether every cached index is the index that one of `scans` gives for
/// its guild.
pub open spec fn cache_scanned(cache: CacheModel, scans: Set<TableModel>) -> bool {
    forall|guildid: u64| #[trigger]
        cached(cache, guildid) is Some ==> exists|scan: TableModel| #[trigger]
            scans.contains(scan) && cached(cache, guildid)->0 == guild_index(scan, guildid)
}

/// The journal after a check: a warning is added for an unregistered
/// permission.
pub open spec fn journal_after_check(
    journal: Seq<Seq<char>>,
    registry: Seq<Seq<char>>,
    permission: Seq<char>,
) -> Seq<Seq<char>> {
    if registry.contains(permission) {
        journal
    } else {
        journal.push(unregistered_warning(permission))
    }
}

/// The permission engine.
pub struct Permissions {
    registry: PermissionRegistry,
    store: PermissionStore,
    cache: RoleCache,
    journal: Vec<String>,
    scans: Ghost<Set<TableModel>>,
}

impl Permissions {
    /// The registered names, in the order of registration.
    pub closed spec fn registry(&self) -> Seq<Seq<char>> {
        self.registry@
    }

    /// The table of direct grants.
    pub closed spec fn users(&self) -> TableModel {
        self.store.users@
    }

    /// The table of role grants.
    pub closed spec fn roles(&self) -> TableModel {
        self.store.roles@
    }

    /// The id that the next new user row gets.
    pub closed spec fn user_serial(&self) -> i64 {
        self.store.users.serial()
    }

    /// The id that the next new role row gets.
    pub closed spec fn role_serial(&self) -> i64 {
        self.store.roles.serial()
    }

    /// The cached indexes, most recently used first.
    pub closed spec fn cache(&self) -> CacheModel {
        self.cache@
    }

    /// The number of guilds that the cache can hold.
    pub closed spec fn limit(&self) -> nat {
        self.cache.limit()
    }

    /// The log entries that nobody has taken yet, oldest first.
    pub closed spec fn journal(&self) -> Seq<Seq<char>> {
        names_of(self.journal@)
    }

    /// The states that the table of role grants has had, the present one
    /// among them.
    pub closed spec fn scans(&self) -> Set<TableModel> {
        self.scans@
    }

    /// The engine's invariant: the registry holds no name twice, store and
    /// cache are well formed, every name that they hold is registered, and
    /// every cached index is the index of a state that the table of role
    /// grants has had.
    pub closed spec fn wf(&self) -> bool {
        &&& self.registry@.no_duplicates()
        &&& self.store.wf()
        &&& self.cache.wf()
        &&& table_known(self.store.users@, self.registry@)
        &&& table_known(self.store.roles@, self.registry@)
        &&& cache_known(self.cache@, self.registry@)
        &&& self.scans@.contains(self.store.roles@)
        &&& cache_scanned(self.cache@, self.scans@)
    }

    /// What the invariant says of the models.
    pub proof fn lemma_wf(&self)
        requires
            self.wf(),
        ensures
            table_known(self.users(), self.registry()),
            table_known(self.roles(), self.registry()),
            cache_known(self.cache(), self.registry()),
            crate::cache::valid_cache(self.cache(), self.limit()),
            self.registry().no_duplicates(),
            self.scans().contains(self.roles()),
            cache_scanned(self.cache(), self.scans()),
    {
    }

    /// An engine without names, rows, cached indexes or log entries.
    pub fn new() -> (engine: Permissions)
        ensures
            engine.wf(),
            engine.registry() == Seq::<Seq<char>>::empty(),
            engine.users() == TableModel::empty(),
            engine.roles() == TableModel::empty(),
            engine.user_serial() == 1,
            engine.role_serial() == 1,
            engine.cache() == CacheModel::empty(),
            engine.limit() == crate::cache::CACHE_SIZE,
            engine.journal() == Seq::<Seq<char>>::empty(),
            engine.scans() == Set::<TableModel>::empty().insert(TableModel::empty()),
    {
        let engine = Permissions {
            registry: PermissionRegistry::new(),
            store: PermissionStore::new(),
            cache: RoleCache::new(),
            journal: Vec::new(),
            scans: Ghost(Set::<TableModel>::empty().insert(TableModel::empty())),
        };
        assert(engine.journal() =~= Seq::<Seq<char>>::empty());
        engine
    }

    /// An engine like a new one, but for the cache's limit and the id of
    /// the first row of each table. None where `limit` is 0 or above
    /// `MAX_CACHE_SIZE`.
    pub fn with_limits(limit: usize, first_uid: i64) -> (engine: Option<Permissions>)
        ensures
            engine is Some <==> 1 <= limit <= crate::cache::MAX_CACHE_SIZE,
            engine is Some ==> {
                &&& engine->0.wf()
                &&& engine->0.registry() == Seq::<Seq<char>>::empty()
                &&& engine->0.users() == TableModel::empty()
                &&& engine->0.roles() == TableModel::empty()
                &&& engine->0.user_serial() == first_uid
                &&& engine->0.role_serial() == first_uid
                &&& engine->0.cache() == CacheModel::empty()
                &&& engine->0.limit() == limit
                &&& engine->0.journal() == Seq::<Seq<char>>::empty()
                &&& engine->0.scans() == Set::<TableModel>::empty().insert(TableModel::empty())
            },
    {
        match RoleCache::with_capacity(limit) {
            Some(cache) => {
                let engine = Permissions {
                    registry: PermissionRegistry::new(),
                    store: PermissionStore::starting_at(first_uid),
                    cache,
                    journal: Vec::new(),
                    scans: Ghost(Set::<TableModel>::empty().insert(TableModel::empty())),
                };
                assert(engine.journal() =~= Seq::<Seq<char>>::empty());
                Some(engine)
            },
            None => None,
        }
    }

    /// Registers the names, in order; a name that is registered already is
    /// not added again. Nothing else changes.
    pub fn register(&mut self, perms: &[&'static str])
        requires
            old(self).wf(),
        ensures
            final(self).wf(),
            final(self).registry() == registered_all(old(self).registry(), slice_names(perms@)),
            final(self).users() == old(self).users(),
            final(self).roles() == old(self).roles(),
            final(self).user_serial() == old(self).user_serial(),
            final(self).role_serial() == old(self).role_serial(),
            final(self).cache() == old(self).cache(),
            final(self).limit() == old(self).limit(),
            final(self).journal() == old(self).journal(),
            final(self).scans() == old(self).scans(),
    {
        add_permission(&mut self.registry, perms);
        proof {
            law_registry_is_a_set(old(self).registry@, slice_names(perms@));
        }
    }

    /// Whether the name is registered.
    pub fn is_registered(&self, name: &str) -> (known: bool)
        ensures
            known == self.registry().contains(name@),
    {
        self.registry.is_registered(name)
    }

    /// The registered names, each once, in the order of first registration.
    pub fn list_permissions(&self) -> (names: &Vec<&'static str>)
        requires
            self.wf(),
        ensures
            slice_names(names@) == self.registry(),
            slice_names(names@).no_duplicates(),
    {
        static_get_permission(&self.registry)
    }

    /// Hands over the log entries that have gathered, oldest first, and
    /// starts an empty journal.
    pub fn take_journal(&mut self) -> (entries: Vec<String>)
        requires
            old(self).wf(),
        ensures
            final(self).wf(),
            names_of(entries@) == old(self).journal(),
            final(self).journal() == Seq::<Seq<char>>::empty(),
            final(self).registry() == old(self).registry(),
            final(self).users() == old(self).users(),
            final(self).roles() == old(self).roles(),
            final(self).user_serial() == old(self).user_serial(),
            final(self).role_serial() == old(self).role_serial(),
            final(self).cache() == old(self).cache(),
            final(self).limit() == old(self).limit(),
            final(self).scans() == old(self).scans(),
    {
        let mut entries: Vec<String> = Vec::new();
        std::mem::swap(&mut entries, &mut self.journal);
        assert(self.journal() =~= Seq::<Seq<char>>::empty());
        entries
    }

    /// The answer of a check in this state. The check fails only when the
    /// user's row is missing and cannot be created. A permission that is
    /// not registered is denied whatever the store holds; a registered one
    /// gets the verdict.
    pub open spec fn check_answer(
        &self,
        userid: u64,
        guildid: u64,
        held: Seq<u64>,
        permission: Seq<char>,
    ) -> Result<bool, ReasonModel> {
        if !self.users().contains_key((guildid, userid)) && self.user_serial() == i64::MAX {
            Err(ensure_failure(exhausted_text()))
        } else if !self.registry().contains(permission) {
            Ok(false)
        } else {
            Ok(
                verdict(
                    self.users(),
                    self.roles(),
                    self.cache(),
                    userid,
                    guildid,
                    held,
                    permission,
                ),
            )
        }
    }

    /// Whether `after` is this state after a check. A check warns in the
    /// journal about an unregistered permission, creates the user's row if
    /// it is missing, and uses the cache where it asks the roles, which it
    /// does for a registered permission only. A check that fails changes
    /// nothing but the journal.
    pub open spec fn check_effect(
        &self,
        after: &Permissions,
        userid: u64,
        guildid: u64,
        held: Seq<u64>,
        permission: Seq<char>,
    ) -> bool {
        &&& after.registry() == self.registry()
        &&& after.roles() == self.roles()
        &&& after.role_serial() == self.role_serial()
        &&& after.limit() == self.limit()
        &&& after.journal() == journal_after_check(self.journal(), self.registry(), permission)
        &&& after.scans() == self.scans()
        &&& if self.check_answer(userid, guildid, held, permission) is Err {
            &&& after.users() == self.users()
            &&& after.user_serial() == self.user_serial()
            &&& after.cache() == self.cache()
        } else {
            &&& after.users() == ensured(self.users(), self.user_serial(), (guildid, userid))
            &&& after.user_serial() == if self.users().contains_key((guildid, userid)) {
                self.user_serial() as int
            } else {
                self.user_serial() + 1
            }
            &&& after.cache() == if self.registry().contains(permission) {
                cache_after_check(
                    self.users(),
                    self.roles(),
                    self.cache(),
                    self.limit(),
                    userid,
                    guildid,
                    held,
                    permission,
                )
            } else {
                self.cache()
            }
        }
    }

    /// Decides whether the user, holding `roles`, may use `permission` in
    /// the guild.
    ///
    /// The verdict is a direct grant or a grant to one of `roles` by the
    /// index that answers for the guild. A permission that is not
    /// registered is denied, after a warning in the journal; the user's row
    /// is created all the same.
    pub fn has_permission(&mut self, userid: u64, guildid: u64, roles: &[u64], permission: &str)
        -> (granted: Result<bool, Reason>)
        requires
            old(self).wf(),
        ensures
            final(self).wf(),
            verdict_view(granted) == old(self).check_answer(userid, guildid, roles@, permission@),
            old(self).check_effect(final(self), userid, guildid, roles@, permission@),
    {
        let question = Question { userid, guildid, roles, permission };
        let (phase, action) = step(
            &question,
            &self.registry,
            Phase::Start,
            Event::Begin,
            &mut self.cache,
        );
        let (phase, action) = match action {
            Action::Log(text) => {
                self.journal.push(text);
                assert(self.journal() =~= old(self).journal().push(
                    unregistered_warning(permission@),
                ));
                step(&question, &self.registry, phase, Event::Logged, &mut self.cache)
            },
            other => (phase, other),
        };
        assert(phase == Phase::EnsuringRow && action@ == ActionModel::EnsureRow);
        let ensured_row = self.store.create_permission_if_not_exists(userid, guildid);
        proof {
            assert forall|key: (u64, u64), name: Seq<char>| #[trigger]
                has_exact(self.store.users@, key, name) implies self.registry@.contains(name) by {
                assert(has_exact(old(self).store.users@, key, name));
            }
        }
        let (phase, action) = step(
            &question,
            &self.registry,
            phase,
            Event::RowEnsured(ensured_row),
            &mut self.cache,
        );
        match action {
            Action::Return(ended) => {
                return ended;
            },
            _ => {},
        }
        let held = self.store.has_exact(userid, guildid, permission);
        proof {
            lemma_touched(self.cache@, self.cache.limit(), guildid);
        }
        let (phase, action) = step(
            &question,
            &self.registry,
            phase,
            Event::ExactMatch(Ok(held)),
            &mut self.cache,
        );
        match action {
            Action::Return(ended) => {
                return ended;
            },
            _ => {},
        }
        let rows = self.store.list_role_permissions(guildid);
        proof {
            let index = guild_index(self.store.roles@, guildid);
            lemma_installed(self.cache@, self.cache.limit(), guildid, index);
            assert forall|name: Seq<char>| #[trigger] index.contains_key(name) implies self.registry@.contains(
                name,
            ) by {
                let roleid = choose|roleid: u64|
                    has_exact(self.store.roles@, (guildid, roleid), name);
                assert(has_exact(self.store.roles@, (guildid, roleid), name));
            }
        }
        let (_, action) = step(
            &question,
            &self.registry,
            phase,
            Event::RoleRows(Ok(rows)),
            &mut self.cache,
        );
        match action {
            Action::Return(ended) => ended,
            _ => {
                proof {
                    assert(false);
                }
                unreached()
            },
        }
    }
    /// Lets a command run that asks for `permission`, or says why not: the
    /// check of [`Permissions::has_permission`], then the guard.
    pub fn check_permission(&mut self, userid: u64, guildid: u64, roles: &[u64], permission: &str)
        -> (leave: Result<(), Reason>)
        requires
            old(self).wf(),
        ensures
            final(self).wf(),
            leave_view(leave) == guarded(
                old(self).check_answer(userid, guildid, roles@, permission@),
                permission@,
            ),
            old(self).check_effect(final(self), userid, guildid, roles@, permission@),
    {
        let granted = self.has_permission(userid, guildid, roles, permission);
        crate::guard::check_permission(granted, permission)
    }

    /// What the guard of permission management answers in this state. A
    /// check that fails ends it before the platform's answer counts.
    pub open spec fn manage_answer(
        &self,
        userid: u64,
        guildid: u64,
        held: Seq<u64>,
        administrator: Result<bool, Seq<char>>,
    ) -> Result<(), ReasonModel> {
        match self.check_answer(userid, guildid, held, manage_name()) {
            Err(reason) => Err(reason),
            Ok(granted) => guarded_or_admin(granted, administrator, manage_name()),
        }
    }

    /// Lets a command run that manages permissions: the user holds the
    /// management permission, or the platform says that the user is an
    /// administrator. `administrator` is the platform's answer.
    pub fn check_permission_manage_or_admin(
        &mut self,
        userid: u64,
        guildid: u64,
        roles: &[u64],
        administrator: Result<bool, String>,
    ) -> (leave: Result<(), Reason>)
        requires
            old(self).wf(),
        ensures
            final(self).wf(),
            leave_view(leave) == old(self).manage_answer(
                userid,
                guildid,
                roles@,
                answer_view(administrator),
            ),
            old(self).check_effect(final(self), userid, guildid, roles@, manage_name()),
    {
        match self.has_permission(userid, guildid, roles, PERMISSION_MANAGE) {
            Err(reason) => Err(reason),
            Ok(granted) => crate::guard::check_permission_manage_or_admin(
                granted,
                administrator,
                PERMISSION_MANAGE,
            ),
        }
    }

    /// The table that holds the grants of this kind of subject.
    pub open spec fn table(&self, subject: Subject) -> TableModel {
        match subject {
            Subject::User => self.users(),
            Subject::Role => self.roles(),
        }
    }

    /// The id that the next new row for this kind of subject gets.
    pub open spec fn serial(&self, subject: Subject) -> i64 {
        match subject {
            Subject::User => self.user_serial(),
            Subject::Role => self.role_serial(),
        }
    }

    /// Whom and what a command is about in this state, or why it is turned
    /// down: the request must parse, and a change of the management
    /// permission takes an administrator.
    pub open spec fn request(
        &self,
        subject: Subject,
        change: Change,
        mention: Option<u64>,
        permission: Option<Seq<char>>,
        administrator: Result<bool, Seq<char>>,
    ) -> Result<(u64, Seq<char>), ErrorModel> {
        match parsed(self.registry(), subject, change, mention, permission) {
            Err(e) => Err(e),
            Ok((target, name)) => match admitted(name, administrator) {
                Err(e) => Err(e),
                Ok(_) => Ok((target, name)),
            },
        }
    }

    /// What a command answers in this state: the error of a request that
    /// is turned down, the store's error when the subject's row is missing
    /// and cannot be created, else the reply.
    pub open spec fn change_answer(
        &self,
        subject: Subject,
        change: Change,
        guildid: u64,
        mention: Option<u64>,
        permission: Option<Seq<char>>,
        administrator: Result<bool, Seq<char>>,
    ) -> Result<Seq<char>, ErrorModel> {
        match self.request(subject, change, mention, permission, administrator) {
            Err(e) => Err(e),
            Ok((target, name)) => if !self.table(subject).contains_key((guildid, target))
                && self.serial(subject) == i64::MAX {
                Err(ensure_error(exhausted_text()))
            } else {
                Ok(change_reply(change))
            },
        }
    }

    /// The subject's table after a command: a command that answers with a
    /// reply has made sure of the subject's row and changed its grants.
    pub open spec fn table_after_change(
        &self,
        subject: Subject,
        change: Change,
        guildid: u64,
        mention: Option<u64>,
        permission: Option<Seq<char>>,
        administrator: Result<bool, Seq<char>>,
    ) -> TableModel {
        if self.change_answer(subject, change, guildid, mention, permission, administrator) is Ok {
            let (target, name) = self.request(
                subject,
                change,
                mention,
                permission,
                administrator,
            )->Ok_0;
            let key = (guildid, target);
            let rows = ensured(self.table(subject), self.serial(subject), key);
            match change {
                Change::Grant => granted(rows, key, name),
                Change::Remove => revoked(rows, key, name),
            }
        } else {
            self.table(subject)
        }
    }

    /// The serial of the subject's table after a command: a command that
    /// answers with a reply has used one id if it had to create the
    /// subject's row; any other command has used none.
    pub open spec fn serial_after_change(
        &self,
        subject: Subject,
        change: Change,
        guildid: u64,
        mention: Option<u64>,
        permission: Option<Seq<char>>,
        administrator: Result<bool, Seq<char>>,
    ) -> int {
        if self.change_answer(subject, change, guildid, mention, permission, administrator) is Ok
            && !self.table(subject).contains_key(
            (
                guildid,
                self.request(subject, change, mention, permission, administrator)->Ok_0.0,
            ),
        ) {
            self.serial(subject) + 1
        } else {
            self.serial(subject) as int
        }
    }

    /// Whether `after` is this state after a command: only the subject's
    /// table and its serial can have changed. The cache is left alone.
    pub open spec fn change_effect(
        &self,
        after: &Permissions,
        subject: Subject,
        change: Change,
        guildid: u64,
        mention: Option<u64>,
        permission: Option<Seq<char>>,
        administrator: Result<bool, Seq<char>>,
    ) -> bool {
        &&& after.registry() == self.registry()
        &&& after.cache() == self.cache()
        &&& after.limit() == self.limit()
        &&& after.journal() == self.journal()
        &&& after.scans() == self.scans().insert(after.roles())
        &&& after.table(subject) == self.table_after_change(
            subject,
            change,
            guildid,
            mention,
            permission,
            administrator,
        )
        &&& after.serial(subject) == self.serial_after_change(
            subject,
            change,
            guildid,
            mention,
            permission,
            administrator,
        )
        &&& match subject {
            Subject::User => after.roles() == self.roles() && after.role_serial()
                == self.role_serial(),
            Subject::Role => after.users() == self.users() && after.user_serial()
                == self.user_serial(),
        }
    }

    /// Carries out a command that grants or removes a permission.
    ///
    /// `mention` is the user or role that the request names, `permission`
    /// the name it gives, `administrator` the platform's answer to whether
    /// the requester is an administrator. The answer counts only for the
    /// management permission.
    pub fn change(
        &mut self,
        subject: Subject,
        change: Change,
        guildid: u64,
        mention: Option<u64>,
        permission: Option<&str>,
        administrator: Result<bool, String>,
    ) -> (reply: Result<String, Error>)
        requires
            old(self).wf(),
        ensures
            final(self).wf(),
            reply_view(reply) == old(self).change_answer(
                subject,
                change,
                guildid,
                mention,
                name_view(permission),
                answer_view(administrator),
            ),
            old(self).change_effect(
                final(self),
                subject,
                change,
                guildid,
                mention,
                name_view(permission),
                answer_view(administrator),
            ),
    {
        assert(self.scans@.insert(self.store.roles@) =~= self.scans@);
        let request = Request { subject, change, mention, permission };
        let (stage, order) = change_step(&self.registry, &request, Stage::Start, Report::Begin);
        let (stage, order) = match order {
            Order::AskAdministrator => change_step(
                &self.registry,
                &request,
                stage,
                Report::Administrator(administrator),
            ),
            other => (stage, other),
        };
        let target = match order {
            Order::Reply(ended) => {
                return ended;
            },
            Order::EnsureRow { target } => target,
            _ => {
                proof {
                    assert(false);
                }
                unreached()
            },
        };
        let ensured_row = match subject {
            Subject::User => self.store.create_permission_if_not_exists(target, guildid),
            Subject::Role => self.store.create_role_permission_if_not_exist(target, guildid),
        };
        let (stage, order) = change_step(
            &self.registry,
            &request,
            stage,
            Report::RowEnsured(ensured_row),
        );
        let name = match order {
            Order::Reply(ended) => {
                return ended;
            },
            Order::Update { target: _, permission } => permission,
            _ => {
                proof {
                    assert(false);
                }
                unreached()
            },
        };
        proof {
            let key = (guildid, target);
            let before = old(self).table(subject);
            let made = ensured(before, old(self).serial(subject), key);
            assert forall|k: (u64, u64), n: Seq<char>| #[trigger]
                has_exact(made, k, n) implies self.registry@.contains(n) by {
                assert(has_exact(before, k, n));
            }
            lemma_change_known(made, self.registry@, key, name@);
        }
        match (subject, change) {
            (Subject::User, Change::Grant) => self.store.users.grant(guildid, target, name.as_str()),
            (Subject::User, Change::Remove) => self.store.users.revoke(
                guildid,
                target,
                name.as_str(),
            ),
            (Subject::Role, Change::Grant) => self.store.roles.grant(guildid, target, name.as_str()),
            (Subject::Role, Change::Remove) => self.store.roles.revoke(
                guildid,
                target,
                name.as_str(),
            ),
        }
        proof {
            lemma_more_scans(self.cache@, self.scans@, self.store.roles@);
        }
        self.scans = Ghost(self.scans@.insert(self.store.roles@));
        let (_, order) = change_step(&self.registry, &request, stage, Report::Updated(Ok(())));
        match order {
            Order::Reply(ended) => ended,
            _ => {
                proof {
                    assert(false);
                }
                unreached()
            },
        }
    }

    /// `permission grant`: grants the permission to the mentioned user.
    pub fn grant(
        &mut self,
        guildid: u64,
        mention: Option<u64>,
        permission: Option<&str>,
        administrator: Result<bool, String>,
    ) -> (reply: Result<String, Error>)
        requires
            old(self).wf(),
        ensures
            final(self).wf(),
            reply_view(reply) == old(self).change_answer(
                Subject::User,
                Change::Grant,
                guildid,
                mention,
                name_view(permission),
                answer_view(administrator),
            ),
            old(self).change_effect(
                final(self),
                Subject::User,
                Change::Grant,
                guildid,
                mention,
                name_view(permission),
                answer_view(administrator),
            ),
    {
        self.change(Subject::User, Change::Grant, guildid, mention, permission, administrator)
    }

    /// `permission remove`: takes the permission from the mentioned user.
    pub fn remove(
        &mut self,
        guildid: u64,
        mention: Option<u64>,
        permission: Option<&str>,
        administrator: Result<bool, String>,
    ) -> (reply: Result<String, Error>)
        requires
            old(self).wf(),
        ensures
            final(self).wf(),
            reply_view(reply) == old(self).change_answer(
                Subject::User,
                Change::Remove,
                guildid,
                mention,
                name_view(permission),
                answer_view(administrator),
            ),
            old(self).change_effect(
                final(self),
                Subject::User,
                Change::Remove,
                guildid,
                mention,
                name_view(permission),
                answer_view(administrator),
            ),
    {
        self.change(Subject::User, Change::Remove, guildid, mention, permission, administrator)
    }

    /// `permission role grant`: grants the permission to the mentioned
    /// role.
    pub fn role_grant(
        &mut self,
        guildid: u64,
        mention: Option<u64>,
        permission: Option<&str>,
        administrator: Result<bool, String>,
    ) -> (reply: Result<String, Error>)
        requires
            old(self).wf(),
        ensures
            final(self).wf(),
            reply_view(reply) == old(self).change_answer(
                Subject::Role,
                Change::Grant,
                guildid,
                mention,
                name_view(permission),
                answer_view(administrator),
            ),
            old(self).change_effect(
                final(self),
                Subject::Role,
                Change::Grant,
                guildid,
                mention,
                name_view(permission),
                answer_view(administrator),
            ),
    {
        self.change(Subject::Role, Change::Grant, guildid, mention, permission, administrator)
    }

    /// `permission role remove`: takes the permission from the mentioned
    /// role.
    pub fn role_remove(
        &mut self,
        guildid: u64,
        mention: Option<u64>,
        permission: Option<&str>,
        administrator: Result<bool, String>,
    ) -> (reply: Result<String, Error>)
        requires
            old(self).wf(),
        ensures
            final(self).wf(),
            reply_view(reply) == old(self).change_answer(
                Subject::Role,
                Change::Remove,
                guildid,
                mention,
                name_view(permission),
                answer_view(administrator),
            ),
            old(self).change_effect(
                final(self),
                Subject::Role,
                Change::Remove,
                guildid,
                mention,
                name_view(permission),
                answer_view(administrator),
            ),
    {
        self.change(Subject::Role, Change::Remove, guildid, mention, permission, administrator)
    }

    /// What `permission view` answers in this state: the error of a
    /// request without a subject, the store's error when the subject's row
    /// is missing and cannot be created, else the names that the row
    /// holds.
    pub open spec fn view_answer(
        &self,
        subject: Subject,
        guildid: u64,
        mention: Option<u64>,
        author: u64,
        rendered: Seq<char>,
    ) -> Result<Seq<char>, ErrorModel> {
        match view_target(subject, mention, author) {
            Err(e) => Err(e),
            Ok(target) => if !self.table(subject).contains_key((guildid, target)) && self.serial(
                subject,
            ) == i64::MAX {
                Err(ensure_error(exhausted_text()))
            } else if self.table(subject).contains_key((guildid, target)) {
                Ok(view_reply(rendered, self.table(subject)[(guildid, target)].names))
            } else {
                Ok(view_reply(rendered, Seq::empty()))
            },
        }
    }

    /// `permission view` and `permission role view`: the names that the
    /// subject holds in the guild. The subject's row is created if it is
    /// missing; nothing else changes. `rendered` is the subject's mention
    /// as the platform writes it.
    pub fn view(
        &mut self,
        subject: Subject,
        guildid: u64,
        mention: Option<u64>,
        author: u64,
        rendered: &str,
    ) -> (reply: Result<String, Error>)
        requires
            old(self).wf(),
        ensures
            final(self).wf(),
            reply_view(reply) == old(self).view_answer(
                subject,
                guildid,
                mention,
                author,
                rendered@,
            ),
            final(self).registry() == old(self).registry(),
            final(self).cache() == old(self).cache(),
            final(self).limit() == old(self).limit(),
            final(self).journal() == old(self).journal(),
            final(self).scans() == old(self).scans().insert(final(self).roles()),
            reply is Err ==> final(self).users() == old(self).users() && final(self).roles()
                == old(self).roles(),
            reply is Ok ==> final(self).table(subject) == ensured(
                old(self).table(subject),
                old(self).serial(subject),
                (guildid, view_target(subject, mention, author)->Ok_0),
            ),
            reply is Ok && subject == Subject::User ==> final(self).roles() == old(self).roles(),
            reply is Ok && subject == Subject::Role ==> final(self).users() == old(self).users(),
            reply is Err ==> final(self).user_serial() == old(self).user_serial(),
            reply is Err ==> final(self).role_serial() == old(self).role_serial(),
            reply is Ok ==> final(self).serial(subject) == if old(self).table(subject).contains_key(
                (guildid, view_target(subject, mention, author)->Ok_0),
            ) {
                old(self).serial(subject) as int
            } else {
                old(self).serial(subject) + 1
            },
            reply is Ok && subject == Subject::User ==> final(self).role_serial()
                == old(self).role_serial(),
            reply is Ok && subject == Subject::Role ==> final(self).user_serial()
                == old(self).user_serial(),
    {
        assert(self.scans@.insert(self.store.roles@) =~= self.scans@);
        let request = ViewRequest { subject, mention, author, rendered };
        let (stage, order) = view_step(&request, Stage::Start, Report::Begin);
        let target = match order {
            Order::Reply(ended) => {
                return ended;
            },
            Order::EnsureRow { target } => target,
            _ => {
                proof {
                    assert(false);
                }
                unreached()
            },
        };
        let ensured_row = match subject {
            Subject::User => self.store.create_permission_if_not_exists(target, guildid),
            Subject::Role => self.store.create_role_permission_if_not_exist(target, guildid),
        };
        let (stage, order) = view_step(&request, stage, Report::RowEnsured(ensured_row));
        match order {
            Order::Reply(ended) => {
                return ended;
            },
            _ => {},
        }
        proof {
            let key = (guildid, target);
            let before = old(self).table(subject);
            let made = ensured(before, old(self).serial(subject), key);
            assert forall|k: (u64, u64), n: Seq<char>| #[trigger]
                has_exact(made, k, n) implies self.registry@.contains(n) by {
                assert(has_exact(before, k, n));
            }
            lemma_more_scans(self.cache@, self.scans@, self.store.roles@);
        }
        self.scans = Ghost(self.scans@.insert(self.store.roles@));
        let found = match subject {
            Subject::User => self.store.users.get(guildid, target),
            Subject::Role => self.store.roles.get(guildid, target),
        };
        let ids = match found {
            Some(row) => Some(row.ids),
            None => None,
        };
        let (_, order) = view_step(&request, stage, Report::Row(Ok(ids)));
        match order {
            Order::Reply(ended) => ended,
            _ => {
                proof {
                    assert(false);
                }
                unreached()
            },
        }
    }

    /// Asks the guild's index whether the role holds the permission. The
    /// cached index answers and counts as used; a guild without one gets
    /// the index that the role table gives, which is cached and answers.
    pub fn check_role_permission(&mut self, guildid: u64, roleid: u64, permission: &str) -> (held:
        bool)
        requires
            old(self).wf(),
        ensures
            final(self).wf(),
            held == index_grants(
                answering_index(old(self).cache(), old(self).roles(), guildid),
                permission@,
                roleid,
            ),
            final(self).cache() == match cached(old(self).cache(), guildid) {
                Some(_) => touched(old(self).cache(), guildid),
                None => installed(
                    old(self).cache(),
                    old(self).limit(),
                    guildid,
                    guild_index(old(self).roles(), guildid),
                ),
            },
            final(self).limit() == old(self).limit(),
            final(self).registry() == old(self).registry(),
            final(self).users() == old(self).users(),
            final(self).roles() == old(self).roles(),
            final(self).user_serial() == old(self).user_serial(),
            final(self).role_serial() == old(self).role_serial(),
            final(self).journal() == old(self).journal(),
            final(self).scans() == old(self).scans(),
    {
        proof {
            lemma_touched(self.cache@, self.cache.limit(), guildid);
        }
        match self.cache.lookup_role(guildid, roleid, permission) {
            Some(Some(held)) => held,
            Some(None) => false,
            None => {
                let rows = self.store.list_role_permissions(guildid);
                let sets = build_role_index(&rows);
                let held = match index_lookup(&sets, roleid, permission) {
                    Some(held) => held,
                    None => false,
                };
                proof {
                    let index = guild_index(self.store.roles@, guildid);
                    lemma_installed(self.cache@, self.cache.limit(), guildid, index);
                    assert forall|name: Seq<char>| #[trigger]
                        index.contains_key(name) implies self.registry@.contains(name) by {
                        let holder = choose|holder: u64|
                            has_exact(self.store.roles@, (guildid, holder), name);
                        assert(has_exact(self.store.roles@, (guildid, holder), name));
                    }
                }
                self.cache.install(guildid, sets);
                held
            },
        }
    }

    /// The store, to read.
    pub fn store(&self) -> (store: &PermissionStore)
        requires
            self.wf(),
        ensures
            store.wf(),
            store.users@ == self.users(),
            store.roles@ == self.roles(),
            store.users.serial() == self.user_serial(),
            store.roles.serial() == self.role_serial(),
    {
        &self.store
    }
}

/// One more scan leaves every cached index the index of a scan.
pub proof fn lemma_more_scans(cache: CacheModel, scans: Set<TableModel>, more: TableModel)
    requires
        cache_scanned(cache, scans),
    ensures
        cache_scanned(cache, scans.insert(more)),
{
    assert forall|guildid: u64| #[trigger] cached(cache, guildid) is Some implies exists|
        scan: TableModel,
    | #[trigger]
        scans.insert(more).contains(scan) && cached(cache, guildid)->0 == guild_index(
            scan,
            guildid,
        ) by {
        let scan = choose|scan: TableModel| #[trigger]
            scans.contains(scan) && cached(cache, guildid)->0 == guild_index(scan, guildid);
        assert(scans.insert(more).contains(scan));
    }
}

/// Granting a registered name, or revoking any name, keeps a table within
/// the registry.
pub proof fn lemma_change_known(
    rows: TableModel,
    registry: Seq<Seq<char>>,
    key: (u64, u64),
    name: Seq<char>,
)
    requires
        table_known(rows, registry),
    ensures
        registry.contains(name) ==> table_known(granted(rows, key, name), registry),
        table_known(revoked(rows, key, name), registry),
{
    if rows.contains_key(key) {
        crate::grants::lemma_with_name(rows[key].names, name);
        crate::grants::lemma_without_name(rows[key].names, name);
    }
    if registry.contains(name) {
        assert forall|k: (u64, u64), n: Seq<char>| #[trigger]
            has_exact(granted(rows, key, name), k, n) implies registry.contains(n) by {
            if n != name {
                assert(has_exact(rows, k, n));
            }
        }
    }
    assert forall|k: (u64, u64), n: Seq<char>| #[trigger]
        has_exact(revoked(rows, key, name), k, n) implies registry.contains(n) by {
        if k == key && rows.contains_key(key) {
            if n != name {
                assert(has_exact(rows, k, n));
            }
        } else {
            assert(has_exact(rows, k, n));
        }
    }
}

} // verus!
