//! The ways a command can fail, the text a caller is shown for each, and
//! what each leaves in the audit trail.

use crate::audit::{error_entries, error_lines, lines, LogEntry, LogLine};
use vstd::prelude::*;
use vstd::string::*;

verus! {

/// Why a command failed.
#[derive(Clone, Debug)]
pub enum DbError {
    /// No pool is registered for the profile.
    NotConnected,
    /// The server could not be reached or refused the credentials: on
    /// connecting to `target`, or, with no target, on taking a connection
    /// from the pool.
    Connectivity { target: Option<String>, cause: String },
    /// A statement failed on the server.
    Query { statement: String, cause: String },
    /// A variable name that may not stand in a statement.
    InvalidIdentifier { name: String },
    /// The registry's lock could not be taken.
    Lock { cause: String },
}

/// What a [`DbError`] says, as plain text.
pub enum Failure {
    NotConnected,
    Connectivity { target: Option<Seq<char>>, cause: Seq<char> },
    Query { statement: Seq<char>, cause: Seq<char> },
    InvalidIdentifier { name: Seq<char> },
    Lock { cause: Seq<char> },
}

impl View for DbError {
    type V = Failure;

    open spec fn view(&self) -> Failure {
        match self {
            DbError::NotConnected => Failure::NotConnected,
            DbError::Connectivity { target, cause } => Failure::Connectivity {
                target: match target {
                    Some(t) => Some(t@),
                    None => None,
                },
                cause: cause@,
            },
            DbError::Query { statement, cause } => Failure::Query {
                statement: statement@,
                cause: cause@,
            },
            DbError::InvalidIdentifier { name } => Failure::InvalidIdentifier { name: name@ },
            DbError::Lock { cause } => Failure::Lock { cause: cause@ },
        }
    }
}

/// The text a caller is shown for a failure. A connect that failed is shown
/// as its cause, word for word.
pub open spec fn message_of(failure: Failure) -> Seq<char> {
    match failure {
        Failure::NotConnected => "Not connected. Please connect first."@,
        Failure::Connectivity { target: Some(target), cause } => cause,
        Failure::Connectivity { target: None, cause } => "Connection error: "@ + cause,
        Failure::Query { statement, cause } => "Query error ["@ + statement + "]: "@ + cause,
        Failure::InvalidIdentifier { name } => "Invalid variable name: "@ + name,
        Failure::Lock { cause } => "Lock error: "@ + cause,
    }
}

/// The text under which a failure stands in the audit trail: the text the
/// caller is shown, but for a connect that failed, which is recorded with
/// the target that it was meant for.
pub open spec fn record_of(failure: Failure) -> Seq<char> {
    match failure {
        Failure::Connectivity { target: Some(target), cause } => "Connection failed to "@ + target
            + ": "@ + cause,
        _ => message_of(failure),
    }
}

/// Whether a failure is written to the audit trail: all are but a refused
/// variable name, which never reached the server.
pub open spec fn is_logged(failure: Failure) -> bool {
    !(failure is InvalidIdentifier)
}

/// The lines a failure leaves in the audit trail: one in each stream, or
/// none for a failure that is not logged.
pub open spec fn lines_of(failure: Failure) -> Seq<LogLine> {
    if is_logged(failure) {
        error_lines(record_of(failure))
    } else {
        Seq::empty()
    }
}

impl DbError {
    /// The text a caller is shown for this failure.
    pub fn message(&self) -> (text: String)
        ensures
            text@ == message_of(self@),
    {
        let mut text = String::new();
        match self {
            DbError::NotConnected => {
                text.append("Not connected. Please connect first.");
                proof {
                    assert(text@ =~= message_of(self@));
                }
            },
            DbError::Connectivity { target: Some(_), cause } => {
                text.append(cause.as_str());
                proof {
                    assert(text@ =~= message_of(self@));
                }
            },
            DbError::Connectivity { target: None, cause } => {
                text.append("Connection error: ");
                text.append(cause.as_str());
                proof {
                    assert(text@ =~= message_of(self@));
                }
            },
            DbError::Query { statement, cause } => {
                text.append("Query error [");
                text.append(statement.as_str());
                text.append("]: ");
                text.append(cause.as_str());
                proof {
                    assert(text@ =~= message_of(self@));
                }
            },
            DbError::InvalidIdentifier { name } => {
                text.append("Invalid variable name: ");
                text.append(name.as_str());
                proof {
                    assert(text@ =~= message_of(self@));
                }
            },
            DbError::Lock { cause } => {
                text.append("Lock error: ");
                text.append(cause.as_str());
                proof {
                    assert(text@ =~= message_of(self@));
                }
            },
        }
        text
    }

    /// The text under which this failure stands in the audit trail.
    pub fn record(&self) -> (text: String)
        ensures
            text@ == record_of(self@),
    {
        match self {
            DbError::Connectivity { target: Some(target), cause } => {
                let mut text = String::new();
                text.append("Connection failed to ");
                text.append(target.as_str());
                text.append(": ");
                text.append(cause.as_str());
                proof {
                    assert(text@ =~= record_of(self@));
                }
                text
            },
            _ => self.message(),
        }
    }

    /// The entries this failure leaves in the audit trail.
    pub fn log_entries(&self) -> (entries: Vec<LogEntry>)
        ensures
            lines(entries@) == lines_of(self@),
    {
        match self {
            DbError::InvalidIdentifier { .. } => {
                let entries: Vec<LogEntry> = Vec::new();
                proof {
                    assert(lines(entries@) =~= lines_of(self@));
                }
                entries
            },
            _ => {
                let text = self.record();
                error_entries(text.as_str())
            },
        }
    }
}

/// What a command gives back, and what it leaves in the audit trail.
pub struct Outcome<T> {
    pub result: Result<T, DbError>,
    pub log: Vec<LogEntry>,
}

/// The outcome of a command that failed: the failure itself, and the lines
/// that it leaves in the audit trail.
pub fn failed<T>(error: DbError) -> (out: Outcome<T>)
    ensures
        out.result == Err::<T, DbError>(error),
        lines(out.log@) == lines_of(error@),
{
    let log = error.log_entries();
    Outcome { result: Err(error), log }
}

} // verus!
