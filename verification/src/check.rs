//! One permission check, as a machine that asks the store and decides.
//!
//! The store is outside the machine. Whoever runs a check starts in
//! [`Phase::Start`] with [`Event::Begin`], performs the [`Action`] that
//! [`step`] hands back, and calls [`step`] again with the [`Event`] that
//! tells how the action went, until the action is [`Action::Return`].
//!
//! A check looks for a direct grant first and asks the roles only when there
//! is none. The roles are answered from the guild's cached index; a guild
//! without one has its role rows listed and its index built and cached. A
//! permission that nobody registered is never granted, whatever the store
//! holds.

use crate::cache::{cached, installed, touched, CacheModel, RoleCache};
use crate::error::{joined, Reason, ReasonModel, StoreError};
use crate::index::{any_role_grants, any_role_in_index, build_role_index, index_of, IndexModel};
use crate::registry::PermissionRegistry;
use crate::rows::RolePermission;
use vstd::prelude::*;
use vstd::string::StringExecFns;

verus! {

/// May the user, holding `roles`, use `permission` in the guild?
pub struct Question<'a> {
    pub userid: u64,
    pub guildid: u64,
    pub roles: &'a [u64],
    pub permission: &'a str,
}

/// How far a check has come.
#[derive(Debug, Clone, Copy, PartialEq, Eq, Structural)]
pub enum Phase {
    /// Nothing has been asked yet.
    Start,
    /// The warning about an unregistered permission is being logged.
    Warning,
    /// The user's row is being made sure of.
    EnsuringRow,
    /// The user's row is being matched against the permission.
    MatchingDirect,
    /// The guild's role rows are being listed.
    LoadingRoles,
    /// The verdict has been returned.
    Finished,
}

/// What the runner reports back.
pub enum Event {
    /// The check begins.
    Begin,
    /// The text was logged.
    Logged,
    /// How making sure of the user's row went.
    RowEnsured(Result<(), StoreError>),
    /// Whether the user's row holds the permission, or why that is unknown.
    ExactMatch(Result<bool, StoreError>),
    /// The guild's role rows, or why they could not be listed.
    RoleRows(Result<Vec<RolePermission>, StoreError>),
}

/// What the runner is to do next.
pub enum Action {
    /// Write the text to the log, then report `Logged`.
    Log(String),
    /// Make sure that the user has a row in the guild, then report
    /// `RowEnsured`.
    EnsureRow,
    /// Ask the store whether the user's row holds the permission, then
    /// report `ExactMatch`.
    MatchDirect,
    /// List the guild's role rows, then report `RoleRows`.
    ListRoles,
    /// The check is over: this is the verdict.
    Return(Result<bool, Reason>),
}

/// An event as contracts see it. Of listed rows only their index counts.
pub enum EventModel {
    Begin,
    Logged,
    RowEnsured(Result<(), Seq<char>>),
    ExactMatch(Result<bool, Seq<char>>),
    RoleRows(Result<IndexModel, Seq<char>>),
}

/// An action as contracts see it.
pub enum ActionModel {
    Log(Seq<char>),
    EnsureRow,
    MatchDirect,
    ListRoles,
    Return(Result<bool, ReasonModel>),
}

impl View for Event {
    type V = EventModel;

    open spec fn view(&self) -> EventModel {
        match *self {
            Event::Begin => EventModel::Begin,
            Event::Logged => EventModel::Logged,
            Event::RowEnsured(Ok(_)) => EventModel::RowEnsured(Ok(())),
            Event::RowEnsured(Err(e)) => EventModel::RowEnsured(Err(e.message@)),
            Event::ExactMatch(Ok(held)) => EventModel::ExactMatch(Ok(held)),
            Event::ExactMatch(Err(e)) => EventModel::ExactMatch(Err(e.message@)),
            Event::RoleRows(Ok(rows)) => EventModel::RoleRows(Ok(index_of(rows@))),
            Event::RoleRows(Err(e)) => EventModel::RoleRows(Err(e.message@)),
        }
    }
}

impl View for Action {
    type V = ActionModel;

    open spec fn view(&self) -> ActionModel {
        match *self {
            Action::Log(text) => ActionModel::Log(text@),
            Action::EnsureRow => ActionModel::EnsureRow,
            Action::MatchDirect => ActionModel::MatchDirect,
            Action::ListRoles => ActionModel::ListRoles,
            Action::Return(Ok(granted)) => ActionModel::Return(Ok(granted)),
            Action::Return(Err(reason)) => ActionModel::Return(Err(reason@)),
        }
    }
}

/// The log entry for a check of a permission that nobody registered.
pub open spec fn unregistered_warning(permission: Seq<char>) -> Seq<char> {
    "You need to register the permission `"@ + permission
        + "` with the wh_core::registry::add_permission function"@
}

/// What the user is told when the store fails.
pub open spec fn internal_error_text() -> Seq<char> {
    "Internal Error"@
}

/// The reason for a failure to make sure of the user's row: the user reads
/// the generic text, the cause goes to the log.
pub open spec fn ensure_failure(cause: Seq<char>) -> ReasonModel {
    ReasonModel::UserAndLog {
        user: internal_error_text(),
        log: "Database Error when fetching permission: "@ + cause,
    }
}

/// The reason for a query that the store could not answer: the user reads
/// the generic text, the cause goes to the log.
pub open spec fn query_failure(cause: Seq<char>) -> ReasonModel {
    ReasonModel::UserAndLog { user: internal_error_text(), log: "Database error: "@ + cause }
}

/// The reason for an event that does not answer the last action: the user
/// reads the generic text, the log says what went wrong.
pub open spec fn protocol_failure() -> ReasonModel {
    ReasonModel::UserAndLog { user: internal_error_text(), log: "Unexpected store event"@ }
}

/// Where a step leads.
pub struct Outcome {
    pub phase: Phase,
    pub action: ActionModel,
    pub cache: CacheModel,
}

/// A step that ends the check.
pub open spec fn finish(verdict: Result<bool, ReasonModel>, cache: CacheModel) -> Outcome {
    Outcome { phase: Phase::Finished, action: ActionModel::Return(verdict), cache }
}

/// The machine: where the check goes from `phase` on `event`.
///
/// An unregistered permission is never granted: it is logged, the user's
/// row is made sure of, and the check ends with `false` without asking the
/// store for grants. A failure of the store ends the check with a reason
/// for user and log and leaves the cache alone. A direct grant ends it with
/// `true`, no roles to ask with `false`. Otherwise the guild's cached index
/// answers, or the index of the rows that arrive, which is then cached. An
/// event that does not answer the last action ends the check with a reason
/// of the same kind; so does any answer about grants for a permission that
/// is not registered, since the machine never asks for one.
pub open spec fn transition(
    permission: Seq<char>,
    guildid: u64,
    roles: Seq<u64>,
    registered: bool,
    phase: Phase,
    event: EventModel,
    cache: CacheModel,
    limit: nat,
) -> Outcome {
    match (phase, event) {
        (Phase::Start, EventModel::Begin) => if registered {
            Outcome { phase: Phase::EnsuringRow, action: ActionModel::EnsureRow, cache }
        } else {
            Outcome {
                phase: Phase::Warning,
                action: ActionModel::Log(unregistered_warning(permission)),
                cache,
            }
        },
        (Phase::Warning, EventModel::Logged) => Outcome {
            phase: Phase::EnsuringRow,
            action: ActionModel::EnsureRow,
            cache,
        },
        (Phase::EnsuringRow, EventModel::RowEnsured(Ok(_))) => if registered {
            Outcome { phase: Phase::MatchingDirect, action: ActionModel::MatchDirect, cache }
        } else {
            finish(Ok(false), cache)
        },
        (Phase::EnsuringRow, EventModel::RowEnsured(Err(cause))) => finish(
            Err(ensure_failure(cause)),
            cache,
        ),
        (Phase::MatchingDirect, EventModel::ExactMatch(Ok(held))) => if !registered {
            finish(Err(protocol_failure()), cache)
        } else if held {
            finish(Ok(true), cache)
        } else if roles.len() == 0 {
            finish(Ok(false), cache)
        } else {
            match cached(cache, guildid) {
                Some(index) => finish(
                    Ok(any_role_grants(index, roles, permission)),
                    touched(cache, guildid),
                ),
                None => Outcome { phase: Phase::LoadingRoles, action: ActionModel::ListRoles, cache },
            }
        },
        (Phase::MatchingDirect, EventModel::ExactMatch(Err(cause))) => if !registered {
            finish(Err(protocol_failure()), cache)
        } else {
            finish(Err(query_failure(cause)), cache)
        },
        (Phase::LoadingRoles, EventModel::RoleRows(Ok(index))) => if !registered {
            finish(Err(protocol_failure()), cache)
        } else {
            finish(
                Ok(any_role_grants(index, roles, permission)),
                installed(cache, limit, guildid, index),
            )
        },
        (Phase::LoadingRoles, EventModel::RoleRows(Err(cause))) => if !registered {
            finish(Err(protocol_failure()), cache)
        } else {
            finish(Err(query_failure(cause)), cache)
        },
        _ => finish(Err(protocol_failure()), cache),
    }
}

/// The log entry for a check of a permission that nobody registered.
pub fn warning_text(permission: &str) -> (text: String)
    ensures
        text@ == unregistered_warning(permission@),
{
    let mut text = String::from_str("You need to register the permission `");
    text.append(permission);
    text.append("` with the wh_core::registry::add_permission function");
    text
}

/// Takes the check one step further: decides on `event`, uses and fills the
/// cache as the machine says, and hands back the next phase and action.
pub fn step(
    question: &Question,
    registry: &PermissionRegistry,
    phase: Phase,
    event: Event,
    cache: &mut RoleCache,
) -> (next: (Phase, Action))
    requires
        old(cache).wf(),
    ensures
        final(cache).wf(),
        final(cache).limit() == old(cache).limit(),
        transition(
            question.permission@,
            question.guildid,
            question.roles@,
            registry.registered(question.permission@),
            phase,
            event@,
            old(cache)@,
            old(cache).limit(),
        ) == (Outcome { phase: next.0, action: next.1@, cache: final(cache)@ }),
{
    match phase {
        Phase::Start => match event {
            Event::Begin => {
                if registry.is_registered(question.permission) {
                    (Phase::EnsuringRow, Action::EnsureRow)
                } else {
                    (Phase::Warning, Action::Log(warning_text(question.permission)))
                }
            },
            _ => unexpected(),
        },
        Phase::Warning => match event {
            Event::Logged => (Phase::EnsuringRow, Action::EnsureRow),
            _ => unexpected(),
        },
        Phase::EnsuringRow => match event {
            Event::RowEnsured(Ok(_)) => {
                if registry.is_registered(question.permission) {
                    (Phase::MatchingDirect, Action::MatchDirect)
                } else {
                    (Phase::Finished, Action::Return(Ok(false)))
                }
            },
            Event::RowEnsured(Err(e)) => {
                let reason = Reason::UserAndLog {
                    user: String::from_str("Internal Error"),
                    log: joined("Database Error when fetching permission: ", e.message.as_str()),
                };
                (Phase::Finished, Action::Return(Err(reason)))
            },
            _ => unexpected(),
        },
        Phase::MatchingDirect => match event {
            Event::ExactMatch(_) if !registry.is_registered(question.permission) => unexpected(),
            Event::ExactMatch(Ok(held)) => {
                if held {
                    (Phase::Finished, Action::Return(Ok(true)))
                } else if question.roles.len() == 0 {
                    (Phase::Finished, Action::Return(Ok(false)))
                } else {
                    match cache.check_roles_in_cache(
                        question.guildid,
                        question.roles,
                        question.permission,
                    ) {
                        Some(granted) => (Phase::Finished, Action::Return(Ok(granted))),
                        None => (Phase::LoadingRoles, Action::ListRoles),
                    }
                }
            },
            Event::ExactMatch(Err(e)) => (Phase::Finished, Action::Return(Err(query_failed(&e)))),
            _ => unexpected(),
        },
        Phase::LoadingRoles => match event {
            Event::RoleRows(_) if !registry.is_registered(question.permission) => unexpected(),
            Event::RoleRows(Ok(rows)) => {
                let sets = build_role_index(&rows);
                let granted = any_role_in_index(&sets, question.roles, question.permission);
                cache.install(question.guildid, sets);
                (Phase::Finished, Action::Return(Ok(granted)))
            },
            Event::RoleRows(Err(e)) => (Phase::Finished, Action::Return(Err(query_failed(&e)))),
            _ => unexpected(),
        },
        Phase::Finished => unexpected(),
    }
}

/// The reason for a failed query.
fn query_failed(e: &StoreError) -> (reason: Reason)
    ensures
        reason@ == query_failure(e.message@),
{
    Reason::UserAndLog {
        user: String::from_str("Internal Error"),
        log: joined("Database error: ", e.message.as_str()),
    }
}

/// The end of a check whose runner reported an event that does not answer
/// the last action.
fn unexpected() -> (next: (Phase, Action))
    ensures
        next.0 == Phase::Finished,
        next.1@ == ActionModel::Return(Err(protocol_failure())),
{
    let reason = Reason::UserAndLog {
        user: String::from_str("Internal Error"),
        log: String::from_str("Unexpected store event"),
    };
    (Phase::Finished, Action::Return(Err(reason)))
}

} // verus!
