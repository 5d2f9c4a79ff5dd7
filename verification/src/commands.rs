//! What the `permission` commands decide: whom a request is about, whether
//! it may go through, and what the user reads afterwards.
//!
//! A request to grant or remove a permission names a user or a role and a
//! registered permission. The permission that guards the management of
//! permissions itself can only be changed by an administrator of the
//! platform.

use crate::error::{joined, Error, ErrorModel, StoreError};
use crate::grants::names_of;
use crate::registry::{slice_names, static_get_permission, PermissionRegistry};
use crate::registry::PERMISSION_MANAGE;
use crate::text::same_text;
use vstd::prelude::*;
use vstd::string::StringExecFns;

verus! {

/// Whose grants a command is about.
#[derive(Debug, Clone, Copy, PartialEq, Eq, Structural)]
pub enum Subject {
    User,
    Role,
}

/// What a command does to the grants.
#[derive(Debug, Clone, Copy, PartialEq, Eq, Structural)]
pub enum Change {
    Grant,
    Remove,
}

/// The name of the permission that guards permission management.
pub open spec fn manage_name() -> Seq<char> {
    "permission.manage"@
}

/// What the user reads when the request names nobody.
pub open spec fn missing_mention(subject: Subject) -> Seq<char> {
    match subject {
        Subject::User => "You need to mention someone"@,
        Subject::Role => "You need to mention a role"@,
    }
}

/// What the user reads when the request names no permission.
pub open spec fn missing_permission(change: Change) -> Seq<char> {
    match change {
        Change::Grant => "You need to provide a permission to give!"@,
        Change::Remove => "You need to provide a permission to remove!"@,
    }
}

/// What the user reads when the permission is not registered.
pub open spec fn unknown_permission() -> Seq<char> {
    "This permission does't exist!"@
}

/// What the user reads who is no administrator and asks for a change of
/// the management permission.
pub open spec fn administrator_only() -> Seq<char> {
    "This permission can only be managed by having the ADMINISTRATOR discord permission"@
}

/// The error when the platform cannot say whether the user is an
/// administrator.
pub open spec fn platform_error(cause: Seq<char>) -> ErrorModel {
    ErrorModel::Both { msg: "Internal Error"@, err: "Internal Error: "@ + cause }
}

/// The error when the store fails to make sure of the subject's row: the
/// user reads the generic text, the cause goes to the log.
pub open spec fn ensure_error(cause: Seq<char>) -> ErrorModel {
    ErrorModel::Both { msg: "Internal Error"@, err: cause }
}

/// The error when the store fails to change a grant list.
pub open spec fn update_error(change: Change, cause: Seq<char>) -> ErrorModel {
    ErrorModel::Both {
        msg: "An error occured with the database"@,
        err: match change {
            Change::Grant => "Error when granting permission: "@ + cause,
            Change::Remove => "Error when removing permission: "@ + cause,
        },
    }
}

/// What the user reads after the change.
pub open spec fn change_reply(change: Change) -> Seq<char> {
    match change {
        Change::Grant => "The permission has been granted"@,
        Change::Remove => "The permission has been removed"@,
    }
}

/// The view of an optional name.
pub open spec fn name_view(name: Option<&str>) -> Option<Seq<char>> {
    match name {
        Some(text) => Some(text@),
        None => None,
    }
}

/// Whom and what a request is about, or why it is turned down: it must
/// name a subject and a permission, and the permission must be registered.
pub open spec fn parsed(
    registry: Seq<Seq<char>>,
    subject: Subject,
    change: Change,
    mention: Option<u64>,
    permission: Option<Seq<char>>,
) -> Result<(u64, Seq<char>), ErrorModel> {
    match mention {
        None => Err(ErrorModel::Message(missing_mention(subject))),
        Some(target) => match permission {
            None => Err(ErrorModel::Message(missing_permission(change))),
            Some(name) => if registry.contains(name) {
                Ok((target, name))
            } else {
                Err(ErrorModel::Message(unknown_permission()))
            },
        },
    }
}

/// Whether the platform's answer lets a change of `permission` through.
/// Only the management permission needs the answer at all.
pub open spec fn admitted(permission: Seq<char>, administrator: Result<bool, Seq<char>>) -> Result<
    (),
    ErrorModel,
> {
    if permission != manage_name() {
        Ok(())
    } else {
        match administrator {
            Err(cause) => Err(platform_error(cause)),
            Ok(true) => Ok(()),
            Ok(false) => Err(ErrorModel::Message(administrator_only())),
        }
    }
}

/// The view of a parsed request.
pub open spec fn parsed_view(request: Result<(u64, &str), Error>) -> Result<
    (u64, Seq<char>),
    ErrorModel,
> {
    match request {
        Ok((target, name)) => Ok((target, name@)),
        Err(e) => Err(e@),
    }
}

/// The view of a step that yields nothing.
pub open spec fn unit_view(done: Result<(), Error>) -> Result<(), ErrorModel> {
    match done {
        Ok(_) => Ok(()),
        Err(e) => Err(e@),
    }
}

/// The view of a reply.
pub open spec fn reply_view(reply: Result<String, Error>) -> Result<Seq<char>, ErrorModel> {
    match reply {
        Ok(text) => Ok(text@),
        Err(e) => Err(e@),
    }
}

/// Reads a request: the subject it mentions and the permission it names.
pub fn parse_request<'a>(
    registry: &PermissionRegistry,
    subject: Subject,
    change: Change,
    mention: Option<u64>,
    permission: Option<&'a str>,
) -> (request: Result<(u64, &'a str), Error>)
    ensures
        parsed_view(request) == parsed(registry@, subject, change, mention, name_view(permission)),
{
    let target = match mention {
        Some(target) => target,
        None => {
            let text = match subject {
                Subject::User => "You need to mention someone",
                Subject::Role => "You need to mention a role",
            };
            return Err(Error::Message(String::from_str(text)));
        },
    };
    let name = match permission {
        Some(name) => name,
        None => {
            let text = match change {
                Change::Grant => "You need to provide a permission to give!",
                Change::Remove => "You need to provide a permission to remove!",
            };
            return Err(Error::Message(String::from_str(text)));
        },
    };
    if !registry.is_registered(name) {
        return Err(Error::Message(String::from_str("This permission does't exist!")));
    }
    Ok((target, name))
}

/// Whether a change of `permission` takes an administrator of the
/// platform.
pub fn needs_administrator(permission: &str) -> (needed: bool)
    ensures
        needed == (permission@ == manage_name()),
{
    same_text(permission, PERMISSION_MANAGE)
}

/// Decides on the platform's answer for a change of the management
/// permission.
pub fn require_administrator(administrator: Result<bool, String>) -> (done: Result<(), Error>)
    ensures
        unit_view(done) == admitted(manage_name(), crate::guard::answer_view(administrator)),
{
    match administrator {
        Err(cause) => Err(
            Error::Both {
                msg: String::from_str("Internal Error"),
                err: joined("Internal Error: ", cause.as_str()),
            },
        ),
        Ok(true) => Ok(()),
        Ok(false) => Err(
            Error::Message(
                String::from_str(
                    "This permission can only be managed by having the ADMINISTRATOR discord permission",
                ),
            ),
        ),
    }
}

/// What a failure to make sure of the subject's row becomes: the generic
/// text for the user, the store's own text for the log.
pub fn ensure_outcome(ensured: Result<(), StoreError>) -> (done: Result<(), Error>)
    ensures
        unit_view(done) == match ensured {
            Ok(_) => Ok(()),
            Err(e) => Err(ensure_error(e.message@)),
        },
{
    match ensured {
        Ok(_) => Ok(()),
        Err(e) => Err(Error::Both { msg: String::from_str("Internal Error"), err: e.message }),
    }
}

/// What the user reads after the store was told to change the grant list,
/// or the error if the store failed.
pub fn update_outcome(change: Change, updated: Result<(), StoreError>) -> (reply: Result<
    String,
    Error,
>)
    ensures
        reply_view(reply) == match updated {
            Ok(_) => Ok(change_reply(change)),
            Err(e) => Err(update_error(change, e.message@)),
        },
{
    match updated {
        Ok(_) => {
            let text = match change {
                Change::Grant => "The permission has been granted",
                Change::Remove => "The permission has been removed",
            };
            Ok(String::from_str(text))
        },
        Err(e) => {
            let prefix = match change {
                Change::Grant => "Error when granting permission: ",
                Change::Remove => "Error when removing permission: ",
            };
            Err(
                Error::Both {
                    msg: String::from_str("An error occured with the database"),
                    err: joined(prefix, e.message.as_str()),
                },
            )
        },
    }
}

/// Whose grants `view` shows: the mentioned subject. Without a mention a
/// user's view shows the author's own grants, and a role's view is turned
/// down.
pub open spec fn view_target(subject: Subject, mention: Option<u64>, author: u64) -> Result<
    u64,
    ErrorModel,
> {
    match mention {
        Some(target) => Ok(target),
        None => match subject {
            Subject::User => Ok(author),
            Subject::Role => Err(ErrorModel::Message("You need to mention a role!"@)),
        },
    }
}

/// The view of a chosen subject.
pub open spec fn target_view(target: Result<u64, Error>) -> Result<u64, ErrorModel> {
    match target {
        Ok(id) => Ok(id),
        Err(e) => Err(e@),
    }
}

/// Picks the subject whose grants `view` shows.
pub fn choose_target(subject: Subject, mention: Option<u64>, author: u64) -> (target: Result<
    u64,
    Error,
>)
    ensures
        target_view(target) == view_target(subject, mention, author),
{
    match mention {
        Some(target) => Ok(target),
        None => match subject {
            Subject::User => Ok(author),
            Subject::Role => Err(Error::Message(String::from_str("You need to mention a role!"))),
        },
    }
}

/// The names, each between backquotes and followed by a blank.
pub open spec fn quoted_names(names: Seq<Seq<char>>) -> Seq<char>
    decreases names.len(),
{
    if names.len() == 0 {
        Seq::empty()
    } else {
        quoted_names(names.drop_last()) + "`"@ + names.last() + "` "@
    }
}

/// The reply of `permission list`.
pub open spec fn list_reply(registry: Seq<Seq<char>>) -> Seq<char> {
    "Valid permissions are: "@ + quoted_names(registry)
}

/// The reply of `permission view`.
pub open spec fn view_reply(mention: Seq<char>, names: Seq<Seq<char>>) -> Seq<char> {
    mention + " permissions are: "@ + quoted_names(names)
}

/// Appends each name of `names`, between backquotes and followed by a
/// blank.
fn append_quoted(text: &mut String, names: &Vec<String>)
    ensures
        final(text)@ == old(text)@ + quoted_names(names_of(names@)),
{
    let mut i: usize = 0;
    assert(names_of(names@.take(0)) =~= Seq::<Seq<char>>::empty());
    assert(text@ =~= old(text)@ + quoted_names(names_of(names@.take(0))));
    while i < names.len()
        invariant
            i <= names.len(),
            text@ == old(text)@ + quoted_names(names_of(names@.take(i as int))),
        decreases names.len() - i,
    {
        proof {
            let more = names_of(names@.take(i + 1));
            assert(more.drop_last() =~= names_of(names@.take(i as int)));
            assert(more.last() == names@[i as int]@);
        }
        text.append("`");
        text.append(names[i].as_str());
        text.append("` ");
        assert(text@ =~= old(text)@ + quoted_names(names_of(names@.take(i + 1))));
        i += 1;
    }
    assert(names@.take(names.len() as int) =~= names@);
}

/// The reply of `permission list`: every registered name.
pub fn list(registry: &PermissionRegistry) -> (reply: String)
    ensures
        reply@ == list_reply(registry@),
{
    let names = static_get_permission(registry);
    let mut reply = String::from_str("Valid permissions are: ");
    let ghost head = reply@;
    let mut i: usize = 0;
    assert(slice_names(names@.take(0)) =~= Seq::<Seq<char>>::empty());
    assert(reply@ =~= head + quoted_names(slice_names(names@.take(0))));
    while i < names.len()
        invariant
            i <= names.len(),
            reply@ == head + quoted_names(slice_names(names@.take(i as int))),
        decreases names.len() - i,
    {
        proof {
            let more = slice_names(names@.take(i + 1));
            assert(more.drop_last() =~= slice_names(names@.take(i as int)));
            assert(more.last() == names@[i as int]@);
        }
        let ghost before = reply@;
        reply.append("`");
        reply.append(names[i]);
        reply.append("` ");
        assert(reply@ =~= head + quoted_names(slice_names(names@.take(i + 1))));
        i += 1;
    }
    assert(names@.take(names.len() as int) =~= names@);
    reply
}

/// The reply of `permission view`: the names that the mentioned subject
/// holds.
pub fn view(mention: &str, ids: &Vec<String>) -> (reply: String)
    ensures
        reply@ == view_reply(mention@, names_of(ids@)),
{
    let mut reply = String::from_str(mention);
    reply.append(" permissions are: ");
    append_quoted(&mut reply, ids);
    reply
}

} // verus!
