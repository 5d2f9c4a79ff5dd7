//! The `permission` commands, as machines that ask the platform and the
//! store and decide.
//!
//! Whoever runs a command starts in [`Stage::Start`] with
//! [`Report::Begin`], carries out the [`Order`] that the step hands back,
//! and takes the next step with the [`Report`] that tells how it went,
//! until the order is [`Order::Reply`]. [`change_step`] runs a grant or a
//! removal, [`view_step`] a view.

use crate::commands::{admitted, change_reply, ensure_error, manage_name, name_view, parsed};
use crate::commands::{choose_target, ensure_outcome, needs_administrator, parse_request};
use crate::commands::{require_administrator, update_error, update_outcome, view, view_reply};
use crate::commands::{view_target, Change, Subject};
use crate::error::{Error, ErrorModel, StoreError};
use crate::grants::names_of;
use crate::registry::PermissionRegistry;
use vstd::prelude::*;
use vstd::string::StringExecFns;

verus! {

/// A request to grant or remove a permission, as read from a message.
pub struct Request<'a> {
    pub subject: Subject,
    pub change: Change,
    /// The user or role that the message mentions, if it mentions one.
    pub mention: Option<u64>,
    /// The permission that the message names, if it names one.
    pub permission: Option<&'a str>,
}

/// A request to show the permissions of a subject.
pub struct ViewRequest<'a> {
    pub subject: Subject,
    /// The user or role that the message mentions, if it mentions one.
    pub mention: Option<u64>,
    /// The user who sent the message.
    pub author: u64,
    /// The subject's mention as the platform writes it.
    pub rendered: &'a str,
}

/// How far a command has come.
#[derive(Debug, Clone, Copy, PartialEq, Eq, Structural)]
pub enum Stage {
    /// Nothing has been asked yet.
    Start,
    /// The platform is being asked whether the requester is an
    /// administrator.
    AskingPlatform,
    /// The subject's row is being made sure of.
    EnsuringRow,
    /// The store is changing the grant list.
    Updating,
    /// The store is reading the subject's row.
    Reading,
    /// The reply has been handed out.
    Finished,
}

/// What the runner reports back.
pub enum Report {
    /// The command begins.
    Begin,
    /// Whether the requester is an administrator, or why that is unknown.
    Administrator(Result<bool, String>),
    /// How making sure of the subject's row went.
    RowEnsured(Result<(), StoreError>),
    /// How the change of the grant list went.
    Updated(Result<(), StoreError>),
    /// The grant list of the subject's row, if the row was found.
    Row(Result<Option<Vec<String>>, StoreError>),
}

/// What the runner is to do next.
pub enum Order {
    /// Ask the platform whether the requester is an administrator, then
    /// report `Administrator`.
    AskAdministrator,
    /// Make sure that the subject has a row in the guild, then report
    /// `RowEnsured`.
    EnsureRow { target: u64 },
    /// Tell the store to grant or remove the permission in the subject's
    /// row, then report `Updated`.
    Update { target: u64, permission: String },
    /// Read the subject's row, then report `Row`.
    ReadRow { target: u64 },
    /// The command is over: reply with the text, or end with the error.
    Reply(Result<String, Error>),
}

/// A report as contracts see it.
pub enum ReportModel {
    Begin,
    Administrator(Result<bool, Seq<char>>),
    RowEnsured(Result<(), Seq<char>>),
    Updated(Result<(), Seq<char>>),
    Row(Result<Option<Seq<Seq<char>>>, Seq<char>>),
}

/// An order as contracts see it.
pub enum OrderModel {
    AskAdministrator,
    EnsureRow { target: u64 },
    Update { target: u64, permission: Seq<char> },
    ReadRow { target: u64 },
    Reply(Result<Seq<char>, ErrorModel>),
}

impl View for Report {
    type V = ReportModel;

    open spec fn view(&self) -> ReportModel {
        match *self {
            Report::Begin => ReportModel::Begin,
            Report::Administrator(Ok(is_admin)) => ReportModel::Administrator(Ok(is_admin)),
            Report::Administrator(Err(cause)) => ReportModel::Administrator(Err(cause@)),
            Report::RowEnsured(Ok(_)) => ReportModel::RowEnsured(Ok(())),
            Report::RowEnsured(Err(e)) => ReportModel::RowEnsured(Err(e.message@)),
            Report::Updated(Ok(_)) => ReportModel::Updated(Ok(())),
            Report::Updated(Err(e)) => ReportModel::Updated(Err(e.message@)),
            Report::Row(Ok(Some(ids))) => ReportModel::Row(Ok(Some(names_of(ids@)))),
            Report::Row(Ok(None)) => ReportModel::Row(Ok(None)),
            Report::Row(Err(e)) => ReportModel::Row(Err(e.message@)),
        }
    }
}

impl View for Order {
    type V = OrderModel;

    open spec fn view(&self) -> OrderModel {
        match *self {
            Order::AskAdministrator => OrderModel::AskAdministrator,
            Order::EnsureRow { target } => OrderModel::EnsureRow { target },
            Order::Update { target, permission } => OrderModel::Update {
                target,
                permission: permission@,
            },
            Order::ReadRow { target } => OrderModel::ReadRow { target },
            Order::Reply(Ok(text)) => OrderModel::Reply(Ok(text@)),
            Order::Reply(Err(e)) => OrderModel::Reply(Err(e@)),
        }
    }
}

/// The error for a report that does not answer the last order: the user
/// reads the generic text, the log says what went wrong.
pub open spec fn out_of_turn() -> ErrorModel {
    ErrorModel::Both { msg: "Internal Error"@, err: "Unexpected store event"@ }
}

/// The end of a command.
pub open spec fn reply(answer: Result<Seq<char>, ErrorModel>) -> (Stage, OrderModel) {
    (Stage::Finished, OrderModel::Reply(answer))
}

/// The machine of a grant or a removal: where the command goes from
/// `stage` on `report`.
///
/// The request must name a subject and a registered permission. A change
/// of the management permission takes an administrator, so the platform
/// is asked first; no other change asks it. Then the subject's row is
/// made sure of, then the grant list is changed, then the user is told.
/// The first failure ends the command. A report that does not answer the
/// last order ends it too.
pub open spec fn change_transition(
    registry: Seq<Seq<char>>,
    subject: Subject,
    change: Change,
    mention: Option<u64>,
    permission: Option<Seq<char>>,
    stage: Stage,
    report: ReportModel,
) -> (Stage, OrderModel) {
    match parsed(registry, subject, change, mention, permission) {
        Err(e) => if stage == Stage::Start && report == ReportModel::Begin {
            reply(Err(e))
        } else {
            reply(Err(out_of_turn()))
        },
        Ok((target, name)) => match (stage, report) {
            (Stage::Start, ReportModel::Begin) => if name == manage_name() {
                (Stage::AskingPlatform, OrderModel::AskAdministrator)
            } else {
                (Stage::EnsuringRow, OrderModel::EnsureRow { target })
            },
            (Stage::AskingPlatform, ReportModel::Administrator(answer)) => match admitted(
                manage_name(),
                answer,
            ) {
                Err(e) => reply(Err(e)),
                Ok(_) => (Stage::EnsuringRow, OrderModel::EnsureRow { target }),
            },
            (Stage::EnsuringRow, ReportModel::RowEnsured(Ok(_))) => (
                Stage::Updating,
                OrderModel::Update { target, permission: name },
            ),
            (Stage::EnsuringRow, ReportModel::RowEnsured(Err(cause))) => reply(
                Err(ensure_error(cause)),
            ),
            (Stage::Updating, ReportModel::Updated(Ok(_))) => reply(Ok(change_reply(change))),
            (Stage::Updating, ReportModel::Updated(Err(cause))) => reply(
                Err(update_error(change, cause)),
            ),
            _ => reply(Err(out_of_turn())),
        },
    }
}

/// The machine of a view: where the command goes from `stage` on
/// `report`.
///
/// The view is of the mentioned subject, or of the author where a user's
/// view mentions nobody. The subject's row is made sure of, then read,
/// then shown. A failure of the store ends the command with the generic
/// text for the user and the cause for the log. A report that does not
/// answer the last order, or that finds no row, ends it too.
pub open spec fn view_transition(
    subject: Subject,
    mention: Option<u64>,
    author: u64,
    rendered: Seq<char>,
    stage: Stage,
    report: ReportModel,
) -> (Stage, OrderModel) {
    match view_target(subject, mention, author) {
        Err(e) => if stage == Stage::Start && report == ReportModel::Begin {
            reply(Err(e))
        } else {
            reply(Err(out_of_turn()))
        },
        Ok(target) => match (stage, report) {
            (Stage::Start, ReportModel::Begin) => (
                Stage::EnsuringRow,
                OrderModel::EnsureRow { target },
            ),
            (Stage::EnsuringRow, ReportModel::RowEnsured(Ok(_))) => (
                Stage::Reading,
                OrderModel::ReadRow { target },
            ),
            (Stage::EnsuringRow, ReportModel::RowEnsured(Err(cause))) => reply(
                Err(ensure_error(cause)),
            ),
            (Stage::Reading, ReportModel::Row(Ok(Some(names)))) => reply(
                Ok(view_reply(rendered, names)),
            ),
            (Stage::Reading, ReportModel::Row(Err(cause))) => reply(Err(ensure_error(cause))),
            _ => reply(Err(out_of_turn())),
        },
    }
}

/// The end of a command whose runner reported what does not answer the
/// last order.
fn refuse() -> (next: (Stage, Order))
    ensures
        (next.0, next.1@) == reply(Err(out_of_turn())),
{
    let error = Error::Both {
        msg: String::from_str("Internal Error"),
        err: String::from_str("Unexpected store event"),
    };
    (Stage::Finished, Order::Reply(Err(error)))
}

/// Takes a grant or a removal one step further: decides on `report` and
/// hands back the next stage and order.
pub fn change_step(
    registry: &PermissionRegistry,
    request: &Request,
    stage: Stage,
    report: Report,
) -> (next: (Stage, Order))
    ensures
        (next.0, next.1@) == change_transition(
            registry@,
            request.subject,
            request.change,
            request.mention,
            name_view(request.permission),
            stage,
            report@,
        ),
{
    let (target, name) = match parse_request(
        registry,
        request.subject,
        request.change,
        request.mention,
        request.permission,
    ) {
        Ok(found) => found,
        Err(e) => {
            return match (stage, report) {
                (Stage::Start, Report::Begin) => (Stage::Finished, Order::Reply(Err(e))),
                _ => refuse(),
            };
        },
    };
    match stage {
        Stage::Start => match report {
            Report::Begin => {
                if needs_administrator(name) {
                    (Stage::AskingPlatform, Order::AskAdministrator)
                } else {
                    (Stage::EnsuringRow, Order::EnsureRow { target })
                }
            },
            _ => refuse(),
        },
        Stage::AskingPlatform => match report {
            Report::Administrator(answer) => match require_administrator(answer) {
                Ok(_) => (Stage::EnsuringRow, Order::EnsureRow { target }),
                Err(e) => (Stage::Finished, Order::Reply(Err(e))),
            },
            _ => refuse(),
        },
        Stage::EnsuringRow => match report {
            Report::RowEnsured(ensured) => match ensure_outcome(ensured) {
                Ok(_) => (
                    Stage::Updating,
                    Order::Update { target, permission: String::from_str(name) },
                ),
                Err(e) => (Stage::Finished, Order::Reply(Err(e))),
            },
            _ => refuse(),
        },
        Stage::Updating => match report {
            Report::Updated(updated) => (
                Stage::Finished,
                Order::Reply(update_outcome(request.change, updated)),
            ),
            _ => refuse(),
        },
        _ => refuse(),
    }
}

/// Takes a view one step further: decides on `report` and hands back the
/// next stage and order.
pub fn view_step(request: &ViewRequest, stage: Stage, report: Report) -> (next: (Stage, Order))
    ensures
        (next.0, next.1@) == view_transition(
            request.subject,
            request.mention,
            request.author,
            request.rendered@,
            stage,
            report@,
        ),
{
    let target = match choose_target(request.subject, request.mention, request.author) {
        Ok(target) => target,
        Err(e) => {
            return match (stage, report) {
                (Stage::Start, Report::Begin) => (Stage::Finished, Order::Reply(Err(e))),
                _ => refuse(),
            };
        },
    };
    match stage {
        Stage::Start => match report {
            Report::Begin => (Stage::EnsuringRow, Order::EnsureRow { target }),
            _ => refuse(),
        },
        Stage::EnsuringRow => match report {
            Report::RowEnsured(ensured) => match ensure_outcome(ensured) {
                Ok(_) => (Stage::Reading, Order::ReadRow { target }),
                Err(e) => (Stage::Finished, Order::Reply(Err(e))),
            },
            _ => refuse(),
        },
        Stage::Reading => match report {
            Report::Row(Ok(Some(ids))) => (
                Stage::Finished,
                Order::Reply(Ok(view(request.rendered, &ids))),
            ),
            Report::Row(Ok(None)) => refuse(),
            Report::Row(Err(e)) => match ensure_outcome(Err(e)) {
                Ok(_) => refuse(),
                Err(e) => (Stage::Finished, Order::Reply(Err(e))),
            },
            _ => refuse(),
        },
        _ => refuse(),
    }
}

} // verus!
