//! The guards that stand before a command: a verdict becomes leave to run
//! or the reason why not.

use crate::check::internal_error_text;
use crate::error::{joined, Reason, ReasonModel};
use vstd::prelude::*;
use vstd::string::StringExecFns;

verus! {

/// What a user reads who lacks the permission that a command asks for.
pub open spec fn denial_text(permission: Seq<char>) -> Seq<char> {
    "\u{274c}You don't have the permission `"@ + permission + "` required to use this command"@
}

/// What a user reads who may not manage permissions.
pub open spec fn manage_denial_text(permission: Seq<char>) -> Seq<char> {
    "\u{274c}You don't have the permission `"@ + permission + "`"@
}

/// The reason given when the platform cannot say whether the user is an
/// administrator.
pub open spec fn platform_failure(cause: Seq<char>) -> ReasonModel {
    ReasonModel::UserAndLog {
        user: "\u{274c}"@ + internal_error_text(),
        log: "Internal Error: "@ + cause,
    }
}

/// The leave that follows from a check's answer: an error keeps its
/// reason, a grant lets the command run, and a denial names the permission.
pub open spec fn guarded(granted: Result<bool, ReasonModel>, permission: Seq<char>) -> Result<
    (),
    ReasonModel,
> {
    match granted {
        Err(reason) => Err(reason),
        Ok(true) => Ok(()),
        Ok(false) => Err(ReasonModel::User(denial_text(permission))),
    }
}

/// What the guard of permission management makes of a verdict and of the
/// platform's answer. The platform's failure counts even where the
/// permission is granted; an administrator needs no grant.
pub open spec fn guarded_or_admin(
    granted: bool,
    administrator: Result<bool, Seq<char>>,
    permission: Seq<char>,
) -> Result<(), ReasonModel> {
    match administrator {
        Err(cause) => Err(platform_failure(cause)),
        Ok(is_admin) => if granted || is_admin {
            Ok(())
        } else {
            Err(ReasonModel::User(manage_denial_text(permission)))
        },
    }
}

/// The view of a guard's result.
pub open spec fn leave_view(leave: Result<(), Reason>) -> Result<(), ReasonModel> {
    match leave {
        Ok(_) => Ok(()),
        Err(reason) => Err(reason@),
    }
}

/// The view of a verdict.
pub open spec fn verdict_view(granted: Result<bool, Reason>) -> Result<bool, ReasonModel> {
    match granted {
        Ok(b) => Ok(b),
        Err(reason) => Err(reason@),
    }
}

/// The view of the platform's answer.
pub open spec fn answer_view(answer: Result<bool, String>) -> Result<bool, Seq<char>> {
    match answer {
        Ok(b) => Ok(b),
        Err(cause) => Err(cause@),
    }
}

/// Lets the command run if the permission was granted; otherwise tells
/// the user which permission is missing. A check that failed keeps its
/// reason.
pub fn check_permission(granted: Result<bool, Reason>, permission: &str) -> (leave: Result<
    (),
    Reason,
>)
    ensures
        leave_view(leave) == guarded(verdict_view(granted), permission@),
{
    match granted {
        Err(reason) => Err(reason),
        Ok(true) => Ok(()),
        Ok(false) => {
            let mut text = String::from_str("\u{274c}You don't have the permission `");
            text.append(permission);
            text.append("` required to use this command");
            Err(Reason::User(text))
        },
    }
}

/// Lets a command that manages permissions run if the permission was
/// granted or the platform says that the user is an administrator.
pub fn check_permission_manage_or_admin(
    granted: bool,
    administrator: Result<bool, String>,
    permission: &str,
) -> (leave: Result<(), Reason>)
    ensures
        leave_view(leave) == guarded_or_admin(granted, answer_view(administrator), permission@),
{
    match administrator {
        Err(cause) => Err(
            Reason::UserAndLog {
                user: joined("\u{274c}", "Internal Error"),
                log: joined("Internal Error: ", cause.as_str()),
            },
        ),
        Ok(is_admin) => {
            if granted || is_admin {
                Ok(())
            } else {
                let mut text = String::from_str("\u{274c}You don't have the permission `");
                text.append(permission);
                text.append("`");
                Err(Reason::User(text))
            }
        },
    }
}

} // verus!
