//! The failure values that cross the library's boundary.

use vstd::prelude::*;
use vstd::string::StringExecFns;

verus! {

/// A failure reported by the relational store, kept as the text to log.
#[derive(Debug, Clone)]
pub struct StoreError {
    pub message: String,
}

/// Why a guarded command may not run, and who is told.
#[derive(Debug, Clone)]
pub enum Reason {
    /// Shown to the user who issued the command.
    User(String),
    /// Written to the log only.
    Log(String),
    /// A generic text for the user and the cause for the log.
    UserAndLog { user: String, log: String },
}

/// A reason as contracts see it.
pub enum ReasonModel {
    User(Seq<char>),
    Log(Seq<char>),
    UserAndLog { user: Seq<char>, log: Seq<char> },
}

impl View for Reason {
    type V = ReasonModel;

    open spec fn view(&self) -> ReasonModel {
        match *self {
            Reason::User(text) => ReasonModel::User(text@),
            Reason::Log(text) => ReasonModel::Log(text@),
            Reason::UserAndLog { user, log } => ReasonModel::UserAndLog { user: user@, log: log@ },
        }
    }
}

/// How a command ends when it does not succeed.
#[derive(Debug, Clone)]
pub enum Error {
    /// Sent back as a chat message.
    Message(String),
    /// Written to the log.
    Error(String),
    /// `msg` is sent back, `err` is logged.
    Both { msg: String, err: String },
}

impl Reason {
    /// What is told to the user, if anything.
    pub open spec fn user_text(self) -> Option<Seq<char>> {
        match self {
            Reason::User(text) => Some(text@),
            Reason::Log(_) => None,
            Reason::UserAndLog { user, log } => Some(user@),
        }
    }

    /// What is written to the log about the guard named `guard`, if
    /// anything.
    pub open spec fn log_line(self, guard: Seq<char>) -> Option<Seq<char>> {
        match self {
            Reason::User(_) => None,
            Reason::Log(text) => Some("Check "@ + guard + " failed: "@ + text@),
            Reason::UserAndLog { user, log } => Some("Check "@ + guard + " failed: "@ + log@),
        }
    }

    /// The reply owed to the user, if the reason carries one.
    pub fn user_message(&self) -> (text: Option<String>)
        ensures
            text is Some <==> self.user_text() is Some,
            text is Some ==> text->0@ == self.user_text()->0,
    {
        match self {
            Reason::User(text) => Some(text.clone()),
            Reason::Log(_) => None,
            Reason::UserAndLog { user, log: _ } => Some(user.clone()),
        }
    }

    /// The log entry owed for the guard named `guard`, if the reason
    /// carries one.
    pub fn log_entry(&self, guard: &str) -> (line: Option<String>)
        ensures
            line is Some <==> self.log_line(guard@) is Some,
            line is Some ==> line->0@ == self.log_line(guard@)->0,
    {
        match self {
            Reason::User(_) => None,
            Reason::Log(text) => Some(guard_line(guard, text.as_str())),
            Reason::UserAndLog { user: _, log } => Some(guard_line(guard, log.as_str())),
        }
    }
}

/// The log entry for a guard that did not let a command run.
fn guard_line(guard: &str, cause: &str) -> (line: String)
    ensures
        line@ == "Check "@ + guard@ + " failed: "@ + cause@,
{
    let mut line = String::from_str("Check ");
    line.append(guard);
    line.append(" failed: ");
    line.append(cause);
    line
}

/// An error as contracts see it.
pub enum ErrorModel {
    Message(Seq<char>),
    Error(Seq<char>),
    Both { msg: Seq<char>, err: Seq<char> },
}

impl View for Error {
    type V = ErrorModel;

    open spec fn view(&self) -> ErrorModel {
        match *self {
            Error::Message(text) => ErrorModel::Message(text@),
            Error::Error(text) => ErrorModel::Error(text@),
            Error::Both { msg, err } => ErrorModel::Both { msg: msg@, err: err@ },
        }
    }
}

impl Error {
    /// The text that goes to the log: nothing for a plain message.
    pub open spec fn log_text(self) -> Seq<char> {
        match self {
            Error::Message(_) => Seq::empty(),
            Error::Error(s) => s@,
            Error::Both { msg, err } => err@,
        }
    }

    /// The text that goes back to the user, if any.
    pub open spec fn user_text(self) -> Option<Seq<char>> {
        match self {
            Error::Message(s) => Some(s@),
            Error::Error(_) => None,
            Error::Both { msg, err } => Some(msg@),
        }
    }

    /// What is written to the log about the command named `command`, if
    /// anything.
    pub open spec fn log_line(self, command: Seq<char>) -> Option<Seq<char>> {
        match self {
            Error::Message(_) => None,
            Error::Error(text) => Some("["@ + command + "]"@ + text@),
            Error::Both { msg, err } => Some("["@ + command + "]"@ + err@),
        }
    }

    /// The log entry owed for the command named `command`, if the error
    /// carries one.
    pub fn log_entry(&self, command: &str) -> (line: Option<String>)
        ensures
            line is Some <==> self.log_line(command@) is Some,
            line is Some ==> line->0@ == self.log_line(command@)->0,
    {
        let cause = match self {
            Error::Message(_) => {
                return None;
            },
            Error::Error(text) => text,
            Error::Both { msg: _, err } => err,
        };
        let mut line = String::from_str("[");
        line.append(command);
        line.append("]");
        line.append(cause.as_str());
        Some(line)
    }

    /// Renders the error for the log.
    pub fn to_string(&self) -> (text: String)
        ensures
            text@ == self.log_text(),
    {
        match self {
            Error::Message(_) => String::new(),
            Error::Error(s) => s.clone(),
            Error::Both { msg: _, err } => err.clone(),
        }
    }

    /// The reply owed to the user, if the error carries one.
    pub fn user_message(&self) -> (text: Option<String>)
        ensures
            text is Some <==> self.user_text() is Some,
            text is Some ==> text->0@ == self.user_text()->0,
    {
        match self {
            Error::Message(s) => Some(s.clone()),
            Error::Error(_) => None,
            Error::Both { msg, err: _ } => Some(msg.clone()),
        }
    }
}

/// `prefix` followed by `tail`, as one owned string.
pub fn joined(prefix: &str, tail: &str) -> (text: String)
    ensures
        text@ == prefix@ + tail@,
{
    String::from_str(prefix).concat(tail)
}

} // verus!
