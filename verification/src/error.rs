//! The failures that the library reports.

use vstd::prelude::*;
use vstd::string::StringExecFns;
use crate::text::{decimal, decimal_string};

verus! {

/// The error of `serde_json`. Nothing is known of what it holds.
#[verifier::external_type_specification]
#[verifier::external_body]
pub struct ExJsonError(serde_json::Error);

/// Why a call failed.
#[derive(Debug)]
pub enum ErrorKind {
    /// A connection of this name is in the table already.
    ConfigEntryExists,
    /// No connection of this name is in the table.
    ConfigConnectionNotExist,
    /// No connection was named, and the table does not hold exactly one:
    /// it holds so many.
    NoDefaultConnection(usize),
    /// The pairing ended before any message carried the pairing code.
    UserIdEmpty,
    /// The table could not be read from, or written as, JSON.
    SerdeJson(serde_json::Error),
}

/// `serde_json::Error::to_string`, the text that `serde_json` gives for its
/// error. Nothing is claimed of it.
#[verifier::external_body]
fn json_error_text(error: &serde_json::Error) -> String {
    error.to_string()
}

/// The words for each error of the library itself.
pub open spec fn described(error: ErrorKind) -> Option<Seq<char>> {
    match error {
        ErrorKind::ConfigEntryExists => Some("config entry already exists"@),
        ErrorKind::ConfigConnectionNotExist => Some("specified connection does not exist"@),
        ErrorKind::NoDefaultConnection(count) => Some(
            "as no connection was given, the default would be used, but there does not exist one, but "@
                + decimal(count as nat) + " connections to choose from"@,
        ),
        ErrorKind::UserIdEmpty => Some("user id is empty"@),
        ErrorKind::SerdeJson(_) => None,
    }
}

impl ErrorKind {
    /// The error in words. For an error of `serde_json` they are its own.
    pub fn description(&self) -> (text: String)
        ensures
            described(*self) is Some ==> described(*self) == Some(text@),
    {
        match self {
            ErrorKind::ConfigEntryExists => String::from_str("config entry already exists"),
            ErrorKind::ConfigConnectionNotExist => String::from_str(
                "specified connection does not exist",
            ),
            ErrorKind::NoDefaultConnection(count) => {
                let mut text = String::from_str(
                    "as no connection was given, the default would be used, but there does not exist one, but ",
                );
                text.append(decimal_string(*count as u64).as_str());
                text.append(" connections to choose from");
                text
            },
            ErrorKind::UserIdEmpty => String::from_str("user id is empty"),
            ErrorKind::SerdeJson(error) => json_error_text(error),
        }
    }
}

} // verus!
