//! What holds of the engine whatever its state: the laws that callers may
//! rely on, each proved from the contracts of the functions it speaks of.

use crate::cache::{cached, installed, lemma_installed, slot_of, touched, valid_cache};
use crate::cache::CacheModel;
use crate::check::{ensure_failure, internal_error_text, query_failure, transition};
use crate::check::unregistered_warning;
use crate::check::{ActionModel, EventModel, Outcome, Phase};
use crate::commands::{manage_name, parsed, Change, Subject};
use crate::error::ErrorModel;
use crate::engine::{answering_index, cache_known, journal_after_check, table_known, verdict};
use crate::engine::Permissions;
use crate::error::ReasonModel;
use crate::grants::{lemma_with_name, lemma_without_name};
use crate::guard::guarded;
use crate::index::{any_role_grants, index_grants, IndexModel};
use crate::steps::{change_transition, view_transition, ReportModel, Stage};
use crate::store::guild_index;
use crate::table::{ensured, granted, has_exact, revoked, RowModel, TableModel};
use vstd::prelude::*;

verus! {

/// The table after the row for `key` was made sure of once for each of
/// `serials`, the serial of the table at that time.
pub open spec fn ensured_each(rows: TableModel, serials: Seq<i64>, key: (u64, u64)) -> TableModel
    decreases serials.len(),
{
    if serials.len() == 0 {
        rows
    } else {
        ensured(ensured_each(rows, serials.drop_last(), key), serials.last(), key)
    }
}

/// Lazy creation is idempotent: making sure of a row any number of times
/// is making sure of it once. A table without the row gains exactly that
/// row, without grants; a table with the row is left as it is, whatever
/// the row holds.
pub proof fn law_ensure_idempotent(rows: TableModel, serials: Seq<i64>, key: (u64, u64))
    requires
        serials.len() >= 1,
    ensures
        ensured_each(rows, serials, key) == ensured(rows, serials[0], key),
        !rows.contains_key(key) ==> ensured_each(rows, serials, key) == rows.insert(
            key,
            RowModel { uid: serials[0], names: Seq::empty() },
        ),
        rows.contains_key(key) ==> ensured_each(rows, serials, key) == rows,
        rows.dom().finite() ==> ensured_each(rows, serials, key).dom().len() == if rows.contains_key(
            key,
        ) {
            rows.dom().len()
        } else {
            rows.dom().len() + 1
        },
    decreases serials.len(),
{
    if serials.len() == 1 {
        assert(serials.drop_last().len() == 0);
        assert(ensured_each(rows, serials.drop_last(), key) == rows);
    } else {
        law_ensure_idempotent(rows, serials.drop_last(), key);
        assert(serials.drop_last()[0] == serials[0]);
    }
}

/// Granting is idempotent: a second grant of the same name changes
/// nothing.
pub proof fn law_grant_idempotent(rows: TableModel, key: (u64, u64), name: Seq<char>)
    ensures
        granted(granted(rows, key, name), key, name) == granted(rows, key, name),
{
    if rows.contains_key(key) {
        lemma_with_name(rows[key].names, name);
        assert(granted(granted(rows, key, name), key, name) =~= granted(rows, key, name));
    }
}

/// Granting through the store is idempotent: the store makes sure of the
/// row and grants; doing both a second time changes nothing.
pub proof fn law_store_grant_idempotent(
    rows: TableModel,
    key: (u64, u64),
    name: Seq<char>,
    first: i64,
    second: i64,
)
    ensures
        granted(ensured(granted(ensured(rows, first, key), key, name), second, key), key, name)
            == granted(ensured(rows, first, key), key, name),
{
    law_grant_idempotent(ensured(rows, first, key), key, name);
}

/// Revoking a name that is not held is no change, and no error: the
/// table stays as it is.
pub proof fn law_revoke_absent(rows: TableModel, key: (u64, u64), name: Seq<char>)
    requires
        !has_exact(rows, key, name),
    ensures
        revoked(rows, key, name) == rows,
{
    if rows.contains_key(key) {
        lemma_without_name(rows[key].names, name);
        assert(revoked(rows, key, name) =~= rows);
    }
}

/// After a grant the row holds the name, after a revocation it does not;
/// no other row and no other name is touched.
pub proof fn law_grant_revoke(rows: TableModel, key: (u64, u64), name: Seq<char>)
    ensures
        rows.contains_key(key) ==> has_exact(granted(rows, key, name), key, name),
        !has_exact(revoked(rows, key, name), key, name),
        forall|other: (u64, u64), held: Seq<char>|
            other != key || held != name ==> (#[trigger] has_exact(
                granted(rows, key, name),
                other,
                held,
            ) <==> has_exact(rows, other, held)),
        forall|other: (u64, u64), held: Seq<char>|
            other != key || held != name ==> (#[trigger] has_exact(
                revoked(rows, key, name),
                other,
                held,
            ) <==> has_exact(rows, other, held)),
{
    if rows.contains_key(key) {
        lemma_with_name(rows[key].names, name);
        lemma_without_name(rows[key].names, name);
    }
}

/// Rows are never deleted: making sure of a row, granting and revoking
/// keep every row of the table, and only making sure of a row can add one.
pub proof fn law_rows_stay(rows: TableModel, serial: i64, key: (u64, u64), name: Seq<char>)
    ensures
        ensured(rows, serial, key).dom() == rows.dom().insert(key),
        granted(rows, key, name).dom() == rows.dom(),
        revoked(rows, key, name).dom() == rows.dom(),
{
    assert(ensured(rows, serial, key).dom() =~= rows.dom().insert(key));
    assert(granted(rows, key, name).dom() =~= rows.dom());
    assert(revoked(rows, key, name).dom() =~= rows.dom());
}

/// Direct grants decide for an actor without roles: after a command has
/// granted the permission to the actor, a check says yes.
pub proof fn law_direct_grant(
    before: Permissions,
    after: Permissions,
    guildid: u64,
    actor: u64,
    permission: Seq<char>,
    administrator: Result<bool, Seq<char>>,
)
    requires
        before.change_answer(
            Subject::User,
            Change::Grant,
            guildid,
            Some(actor),
            Some(permission),
            administrator,
        ) is Ok,
        before.change_effect(
            &after,
            Subject::User,
            Change::Grant,
            guildid,
            Some(actor),
            Some(permission),
            administrator,
        ),
    ensures
        after.check_answer(actor, guildid, Seq::empty(), permission) == Ok::<
            bool,
            ReasonModel,
        >(true),
{
    let key = (guildid, actor);
    let made = ensured(before.users(), before.user_serial(), key);
    law_grant_revoke(made, key, permission);
}

/// Direct grants decide for an actor without roles: after a command has
/// removed the permission from the actor, a check says no.
pub proof fn law_direct_revoke(
    before: Permissions,
    after: Permissions,
    guildid: u64,
    actor: u64,
    permission: Seq<char>,
    administrator: Result<bool, Seq<char>>,
)
    requires
        before.change_answer(
            Subject::User,
            Change::Remove,
            guildid,
            Some(actor),
            Some(permission),
            administrator,
        ) is Ok,
        before.change_effect(
            &after,
            Subject::User,
            Change::Remove,
            guildid,
            Some(actor),
            Some(permission),
            administrator,
        ),
    ensures
        after.check_answer(actor, guildid, Seq::empty(), permission) == Ok::<
            bool,
            ReasonModel,
        >(false),
{
    let key = (guildid, actor);
    let made = ensured(before.users(), before.user_serial(), key);
    law_grant_revoke(made, key, permission);
}

/// The index that a table gives for a guild grants a name to a role
/// exactly when the role's row in the guild holds the name.
pub proof fn lemma_guild_index(roles: TableModel, guildid: u64, name: Seq<char>, roleid: u64)
    ensures
        index_grants(guild_index(roles, guildid), name, roleid) <==> has_exact(
            roles,
            (guildid, roleid),
            name,
        ),
{
}

/// Role grants reach the holders of the role: after a command has granted
/// the permission to a role, a check of an actor who holds the role says
/// yes, provided that the check can run and that the answer does not come
/// from an index that was cached before the grant and knows neither this
/// grant nor another one that decides for the actor.
pub proof fn law_role_grant(
    before: Permissions,
    after: Permissions,
    guildid: u64,
    actor: u64,
    roleid: u64,
    held: Seq<u64>,
    permission: Seq<char>,
    administrator: Result<bool, Seq<char>>,
)
    requires
        before.change_answer(
            Subject::Role,
            Change::Grant,
            guildid,
            Some(roleid),
            Some(permission),
            administrator,
        ) is Ok,
        before.change_effect(
            &after,
            Subject::Role,
            Change::Grant,
            guildid,
            Some(roleid),
            Some(permission),
            administrator,
        ),
        held.contains(roleid),
        after.check_answer(actor, guildid, held, permission) is Ok,
        cached(before.cache(), guildid) is None || any_role_grants(
            cached(before.cache(), guildid)->0,
            held,
            permission,
        ) || has_exact(before.users(), (guildid, actor), permission),
    ensures
        after.check_answer(actor, guildid, held, permission) == Ok::<
            bool,
            ReasonModel,
        >(true),
{
    let key = (guildid, roleid);
    let made = ensured(before.roles(), before.role_serial(), key);
    law_grant_revoke(made, key, permission);
    if cached(before.cache(), guildid) is None {
        lemma_guild_index(after.roles(), guildid, permission, roleid);
        let at = choose|i: int| 0 <= i < held.len() && held[i] == roleid;
        assert(index_grants(guild_index(after.roles(), guildid), permission, held[at]));
    }
}

/// Without a grant there is no leave: an actor who holds the permission
/// neither directly nor through a held role, as the index that answers for
/// the guild has it, is denied.
pub proof fn law_no_grant(
    state: Permissions,
    guildid: u64,
    actor: u64,
    held: Seq<u64>,
    permission: Seq<char>,
)
    requires
        state.check_answer(actor, guildid, held, permission) is Ok,
        !has_exact(state.users(), (guildid, actor), permission),
        cached(state.cache(), guildid) is None,
        forall|i: int|
            0 <= i < held.len() ==> !has_exact(
                state.roles(),
                (guildid, #[trigger] held[i]),
                permission,
            ),
    ensures
        state.check_answer(actor, guildid, held, permission) == Ok::<
            bool,
            ReasonModel,
        >(false),
{
    assert forall|i: int| 0 <= i < held.len() implies !index_grants(
        guild_index(state.roles(), guildid),
        permission,
        #[trigger] held[i],
    ) by {
        lemma_guild_index(state.roles(), guildid, permission, held[i]);
    }
}

/// The cache changes no answer: a check gives the same verdict whether
/// the guild has no cached index, so that one is built from the role
/// table, or has the index cached that the role table gives.
pub proof fn law_cache_transparent(
    users: TableModel,
    roles: TableModel,
    absent: CacheModel,
    populated: CacheModel,
    userid: u64,
    guildid: u64,
    held: Seq<u64>,
    permission: Seq<char>,
)
    requires
        cached(absent, guildid) is None,
        cached(populated, guildid) == Some(guild_index(roles, guildid)),
    ensures
        verdict(users, roles, absent, userid, guildid, held, permission) == verdict(
            users,
            roles,
            populated,
            userid,
            guildid,
            held,
            permission,
        ),
{
}

/// Where two checks of one guild both find no cached index and both cache
/// the index they built, the later one wins: the guild has its index, and
/// the cache holds the guild once.
pub proof fn law_last_write_wins(
    cache: CacheModel,
    limit: nat,
    guildid: u64,
    first: IndexModel,
    second: IndexModel,
)
    requires
        valid_cache(cache, limit),
    ensures
        cached(installed(installed(cache, limit, guildid, first), limit, guildid, second), guildid)
            == Some(second),
        valid_cache(
            installed(installed(cache, limit, guildid, first), limit, guildid, second),
            limit,
        ),
        installed(installed(cache, limit, guildid, first), limit, guildid, second).len()
            == installed(cache, limit, guildid, first).len(),
{
    let once = installed(cache, limit, guildid, first);
    lemma_installed(cache, limit, guildid, first);
    lemma_installed(once, limit, guildid, second);
    assert(slot_of(once, guildid) is Some);
}

/// A cached index is not told of later grants: while the guild's entry is
/// in the cache, a permission granted to a role afterwards does not reach
/// the role's holders; once the entry is gone, it does.
pub proof fn law_stale_until_evicted(
    before: Permissions,
    after: Permissions,
    later: Permissions,
    guildid: u64,
    actor: u64,
    roleid: u64,
    permission: Seq<char>,
    administrator: Result<bool, Seq<char>>,
)
    requires
        before.change_answer(
            Subject::Role,
            Change::Grant,
            guildid,
            Some(roleid),
            Some(permission),
            administrator,
        ) is Ok,
        before.change_effect(
            &after,
            Subject::Role,
            Change::Grant,
            guildid,
            Some(roleid),
            Some(permission),
            administrator,
        ),
        cached(before.cache(), guildid) is Some,
        !index_grants(cached(before.cache(), guildid)->0, permission, roleid),
        !has_exact(before.users(), (guildid, actor), permission),
        after.check_answer(actor, guildid, seq![roleid], permission) is Ok,
        later.users() == after.users(),
        later.user_serial() == after.user_serial(),
        later.roles() == after.roles(),
        later.registry() == after.registry(),
        cached(later.cache(), guildid) is None,
    ensures
        after.check_answer(actor, guildid, seq![roleid], permission) == Ok::<
            bool,
            ReasonModel,
        >(false),
        later.check_answer(actor, guildid, seq![roleid], permission) == Ok::<
            bool,
            ReasonModel,
        >(true),
{
    let held = seq![roleid];
    let key = (guildid, roleid);
    let made = ensured(before.roles(), before.role_serial(), key);
    law_grant_revoke(made, key, permission);
    lemma_guild_index(later.roles(), guildid, permission, roleid);
    assert(held[0] == roleid);
    assert(index_grants(guild_index(later.roles(), guildid), permission, held[0]));
}

/// A cached index comes from a complete scan: in every state of the engine
/// the index that the cache holds for a guild is the index that the table
/// of role grants gave for the guild in one of the states that the table
/// has had, be it the present state or an earlier one.
pub proof fn law_cached_index_is_a_scan(state: Permissions, guildid: u64)
    requires
        state.wf(),
        cached(state.cache(), guildid) is Some,
    ensures
        exists|scan: TableModel| #[trigger]
            state.scans().contains(scan) && cached(state.cache(), guildid)->0 == guild_index(
                scan,
                guildid,
            ),
        state.scans().contains(state.roles()),
{
    state.lemma_wf();
}

/// The store never holds what was not registered: where tables and cache
/// hold registered names only, as they do in every state of the engine, no
/// grant to the user or to a role gives a name that was never registered.
pub proof fn law_unregistered_not_held(
    registry: Seq<Seq<char>>,
    users: TableModel,
    roles: TableModel,
    cache: CacheModel,
    userid: u64,
    guildid: u64,
    held: Seq<u64>,
    permission: Seq<char>,
)
    requires
        table_known(users, registry),
        table_known(roles, registry),
        cache_known(cache, registry),
        !registry.contains(permission),
    ensures
        !verdict(users, roles, cache, userid, guildid, held, permission),
{
    assert(!has_exact(users, (guildid, userid), permission));
    match cached(cache, guildid) {
        Some(index) => {
            assert(!index.contains_key(permission)) by {
                if index.contains_key(permission) {
                    assert(cached(cache, guildid)->0.contains_key(permission));
                }
            }
        },
        None => {
            assert forall|roleid: u64| !has_exact(roles, (guildid, roleid), permission) by {}
        },
    }
}

/// An unregistered permission fails closed in every state of the engine:
/// a check of a name that was never registered leaves a warning in the
/// journal, and where it can run it says no, whatever the tables and the
/// cache hold and whatever roles the actor holds.
pub proof fn law_engine_unregistered_denied(
    state: Permissions,
    userid: u64,
    guildid: u64,
    held: Seq<u64>,
    permission: Seq<char>,
)
    requires
        !state.registry().contains(permission),
        state.check_answer(userid, guildid, held, permission) is Ok,
    ensures
        state.check_answer(userid, guildid, held, permission) == Ok::<
            bool,
            ReasonModel,
        >(false),
        journal_after_check(state.journal(), state.registry(), permission)
            == state.journal().push(unregistered_warning(permission)),
{
}

/// What the store tells the runner of a check, one answer for each thing
/// that the machine can ask.
pub struct Answers {
    /// How making sure of the user's row goes.
    pub ensured: Result<(), Seq<char>>,
    /// Whether the user's row holds the permission.
    pub exact: Result<bool, Seq<char>>,
    /// The index of the guild's role rows.
    pub listed: Result<IndexModel, Seq<char>>,
}

/// Where a check ends whose runner performs each action and reports what
/// `answers` say.
pub open spec fn run(
    permission: Seq<char>,
    guildid: u64,
    roles: Seq<u64>,
    registered: bool,
    answers: Answers,
    cache: CacheModel,
    limit: nat,
) -> Outcome {
    let begun = transition(
        permission,
        guildid,
        roles,
        registered,
        Phase::Start,
        EventModel::Begin,
        cache,
        limit,
    );
    let warned = if begun.action is Log {
        transition(
            permission,
            guildid,
            roles,
            registered,
            begun.phase,
            EventModel::Logged,
            begun.cache,
            limit,
        )
    } else {
        begun
    };
    let ensured = transition(
        permission,
        guildid,
        roles,
        registered,
        warned.phase,
        EventModel::RowEnsured(answers.ensured),
        warned.cache,
        limit,
    );
    if ensured.action is Return {
        ensured
    } else {
        let matched = transition(
            permission,
            guildid,
            roles,
            registered,
            ensured.phase,
            EventModel::ExactMatch(answers.exact),
            ensured.cache,
            limit,
        );
        if matched.action is Return {
            matched
        } else {
            transition(
                permission,
                guildid,
                roles,
                registered,
                matched.phase,
                EventModel::RoleRows(answers.listed),
                matched.cache,
                limit,
            )
        }
    }
}

/// What a check with these answers comes to: a failure to make sure of
/// the user's row; else no for a permission that is not registered; else
/// the first failure of a query, a direct grant, or a grant to a held role
/// by the cached index or, without one, by the listed rows.
pub open spec fn run_verdict(
    permission: Seq<char>,
    guildid: u64,
    roles: Seq<u64>,
    registered: bool,
    answers: Answers,
    cache: CacheModel,
) -> Result<bool, ReasonModel> {
    match answers.ensured {
        Err(cause) => Err(ensure_failure(cause)),
        Ok(_) => if !registered {
            Ok(false)
        } else {
            match answers.exact {
                Err(cause) => Err(query_failure(cause)),
                Ok(true) => Ok(true),
                Ok(false) => if roles.len() == 0 {
                    Ok(false)
                } else {
                    match cached(cache, guildid) {
                        Some(index) => Ok(any_role_grants(index, roles, permission)),
                        None => match answers.listed {
                            Err(cause) => Err(query_failure(cause)),
                            Ok(index) => Ok(any_role_grants(index, roles, permission)),
                        },
                    }
                },
            }
        },
    }
}

/// Every check ends: a runner that performs each action and reports its
/// outcome is handed the verdict after five steps at most, whatever the
/// store answers. The cache is changed only by a check of a registered
/// permission that asks the roles: a direct grant, no roles and a failure
/// of the store leave it as it was.
pub proof fn law_run_ends(
    permission: Seq<char>,
    guildid: u64,
    roles: Seq<u64>,
    registered: bool,
    answers: Answers,
    cache: CacheModel,
    limit: nat,
)
    ensures
        run(permission, guildid, roles, registered, answers, cache, limit).phase == Phase::Finished,
        run(permission, guildid, roles, registered, answers, cache, limit).action
            == ActionModel::Return(
            run_verdict(permission, guildid, roles, registered, answers, cache),
        ),
        run(permission, guildid, roles, registered, answers, cache, limit).cache == if registered
            && answers.ensured is Ok && answers.exact == Ok::<bool, Seq<char>>(false) && roles.len()
            > 0 {
            match cached(cache, guildid) {
                Some(_) => touched(cache, guildid),
                None => match answers.listed {
                    Ok(index) => installed(cache, limit, guildid, index),
                    Err(_) => cache,
                },
            }
        } else {
            cache
        },
{
}

/// Every failure of the store is told in the same way: a check that ends
/// with a reason because the store failed gives the user the generic text
/// and the log the cause, whichever of the three things it asked, and a
/// guard hands that reason on as it is. A store that answers everything
/// never makes a check end with a reason.
pub proof fn law_store_failure_is_told(
    permission: Seq<char>,
    guildid: u64,
    roles: Seq<u64>,
    registered: bool,
    answers: Answers,
    cache: CacheModel,
)
    ensures
        run_verdict(permission, guildid, roles, registered, answers, cache) is Err ==> exists|
            log: Seq<char>,
        |
            run_verdict(permission, guildid, roles, registered, answers, cache)
                == Err::<bool, ReasonModel>(
                ReasonModel::UserAndLog { user: internal_error_text(), log },
            ),
        run_verdict(permission, guildid, roles, registered, answers, cache) is Err ==> guarded(
            run_verdict(permission, guildid, roles, registered, answers, cache),
            permission,
        ) == Err::<(), ReasonModel>(
            run_verdict(permission, guildid, roles, registered, answers, cache)->Err_0,
        ),
        answers.ensured is Ok && answers.exact is Ok && answers.listed is Ok ==> run_verdict(
            permission,
            guildid,
            roles,
            registered,
            answers,
            cache,
        ) is Ok,
{
    let end = run_verdict(permission, guildid, roles, registered, answers, cache);
    if end is Err {
        let log = end->Err_0->UserAndLog_log;
        assert(end == Err::<bool, ReasonModel>(
            ReasonModel::UserAndLog { user: internal_error_text(), log },
        ));
    }
}

/// No step ends a check with a reason that leaves the user without a
/// word: whatever the phase and the event, a reason that a step returns
/// is for user and log, and the user reads the generic text.
pub proof fn law_reasons_reach_the_user(
    permission: Seq<char>,
    guildid: u64,
    roles: Seq<u64>,
    registered: bool,
    phase: Phase,
    event: EventModel,
    cache: CacheModel,
    limit: nat,
)
    ensures
        match transition(permission, guildid, roles, registered, phase, event, cache, limit).action {
            ActionModel::Return(Err(reason)) => reason is UserAndLog && reason->user
                == internal_error_text() && transition(
                permission,
                guildid,
                roles,
                registered,
                phase,
                event,
                cache,
                limit,
            ).cache == cache,
            _ => true,
        },
{
}

/// An unregistered permission fails closed: a check of a name that is not
/// registered begins with the warning and ends with no once the user's row
/// is made sure of. Nothing that the store could answer about grants, and
/// nothing that the cache holds, changes that: no step of such a check, in
/// any phase and on any event, says yes or touches the cache.
pub proof fn law_unregistered_denied(
    permission: Seq<char>,
    guildid: u64,
    roles: Seq<u64>,
    answers: Answers,
    cache: CacheModel,
    limit: nat,
)
    ensures
        transition(
            permission,
            guildid,
            roles,
            false,
            Phase::Start,
            EventModel::Begin,
            cache,
            limit,
        ).action == ActionModel::Log(unregistered_warning(permission)),
        run(permission, guildid, roles, false, answers, cache, limit).action
            == ActionModel::Return(
            match answers.ensured {
                Ok(_) => Ok(false),
                Err(cause) => Err(ensure_failure(cause)),
            },
        ),
        run(permission, guildid, roles, false, answers, cache, limit).cache == cache,
        forall|phase: Phase, event: EventModel| #[trigger]
            transition(permission, guildid, roles, false, phase, event, cache, limit).action
                != ActionModel::Return(Ok(true)) && transition(
                permission,
                guildid,
                roles,
                false,
                phase,
                event,
                cache,
                limit,
            ).cache == cache,
{
}

/// A truthful runner is told the truth: where the answers are those of a
/// store with these tables, the check of a registered permission comes to
/// the verdict over the tables and the cache.
pub proof fn law_truthful_run(
    users: TableModel,
    roles_table: TableModel,
    userid: u64,
    guildid: u64,
    held: Seq<u64>,
    permission: Seq<char>,
    cache: CacheModel,
)
    ensures
        run_verdict(
            permission,
            guildid,
            held,
            true,
            Answers {
                ensured: Ok(()),
                exact: Ok(has_exact(users, (guildid, userid), permission)),
                listed: Ok(guild_index(roles_table, guildid)),
            },
            cache,
        ) == Ok::<bool, ReasonModel>(
            verdict(users, roles_table, cache, userid, guildid, held, permission),
        ),
{
    if held.len() == 0 {
        assert(!any_role_grants(answering_index(cache, roles_table, guildid), held, permission));
    }
}

/// A change reaches the store only in order: the grant list is changed
/// only after the subject's row was made sure of, for the subject and the
/// permission that the request names; a request that is turned down, and
/// a report out of turn, reach nothing. A change of the management
/// permission begins with the question to the platform, and goes on only
/// for an administrator.
pub proof fn law_change_in_order(
    registry: Seq<Seq<char>>,
    subject: Subject,
    change: Change,
    mention: Option<u64>,
    permission: Option<Seq<char>>,
    stage: Stage,
    report: ReportModel,
)
    ensures
        ({
            let order = change_transition(
                registry,
                subject,
                change,
                mention,
                permission,
                stage,
                report,
            ).1;
            let request = parsed(registry, subject, change, mention, permission);
            let first = change_transition(
                registry,
                subject,
                change,
                mention,
                permission,
                Stage::Start,
                ReportModel::Begin,
            ).1;
            &&& order is Update ==> {
                &&& stage == Stage::EnsuringRow
                &&& report is RowEnsured
                &&& report->RowEnsured_0 is Ok
                &&& request is Ok
                &&& request->Ok_0.0 == order->Update_target
                &&& request->Ok_0.1 == order->Update_permission
            }
            &&& request is Err ==> order is Reply
            &&& permission == Some(manage_name()) && first !is Reply ==> first is AskAdministrator
            &&& stage == Stage::AskingPlatform && report != ReportModel::Administrator(Ok(true))
                ==> order is Reply
        }),
{
}

/// No command ends on a failure of the store without a word to the user:
/// where the store cannot make sure of the row, change the grant list or
/// read the row, the command ends with an error for user and log.
pub proof fn law_commands_tell_store_failures(
    registry: Seq<Seq<char>>,
    subject: Subject,
    change: Change,
    mention: Option<u64>,
    permission: Option<Seq<char>>,
    author: u64,
    rendered: Seq<char>,
    stage: Stage,
    cause: Seq<char>,
)
    ensures
        change_transition(
            registry,
            subject,
            change,
            mention,
            permission,
            stage,
            ReportModel::RowEnsured(Err(cause)),
        ).1 is Reply,
        change_transition(
            registry,
            subject,
            change,
            mention,
            permission,
            stage,
            ReportModel::RowEnsured(Err(cause)),
        ).1->Reply_0 is Err,
        change_transition(
            registry,
            subject,
            change,
            mention,
            permission,
            stage,
            ReportModel::RowEnsured(Err(cause)),
        ).1->Reply_0->Err_0 is Both,
        change_transition(
            registry,
            subject,
            change,
            mention,
            permission,
            stage,
            ReportModel::Updated(Err(cause)),
        ).1->Reply_0->Err_0 is Both,
        view_transition(
            subject,
            mention,
            author,
            rendered,
            stage,
            ReportModel::RowEnsured(Err(cause)),
        ).1->Reply_0->Err_0 is Both,
        view_transition(
            subject,
            mention,
            author,
            rendered,
            stage,
            ReportModel::Row(Err(cause)),
        ).1->Reply_0->Err_0 is Both,
        change_transition(
            registry,
            subject,
            change,
            mention,
            permission,
            stage,
            ReportModel::Updated(Err(cause)),
        ).1 is Reply,
        view_transition(
            subject,
            mention,
            author,
            rendered,
            stage,
            ReportModel::Row(Err(cause)),
        ).1 is Reply,
{
}

} // verus!
