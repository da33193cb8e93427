//! The error type of the library.

use vstd::prelude::*;
use vstd::string::StringExecFns;

verus! {

/// Everything that can go wrong, by kind; each kind carries a message for
/// the user.
#[derive(Debug)]
pub enum AppError {
    /// Reading or writing a file failed.
    Io(String),
    /// The store engine refused an operation.
    Sqlite(String),
    /// A JSON document could not be read or written.
    Serde(String),
    /// An invariant that the user can see was violated.
    Validation(String),
    /// Source data is malformed.
    Parsing(String),
    /// Anything else.
    Generic(String),
}

pub type AppResult<T> = Result<T, AppError>;

impl AppError {
    /// The prefix that tells the kinds apart in a rendered message.
    pub open spec fn prefix(self) -> Seq<char> {
        match self {
            AppError::Io(_) => "IO error: "@,
            AppError::Sqlite(_) => "Database error: "@,
            AppError::Serde(_) => "Serialization error: "@,
            AppError::Validation(_) => "Validation error: "@,
            AppError::Parsing(_) => "Parsing error: "@,
            AppError::Generic(_) => ""@,
        }
    }

    /// The message that the error carries.
    pub open spec fn detail(self) -> Seq<char> {
        match self {
            AppError::Io(m) => m@,
            AppError::Sqlite(m) => m@,
            AppError::Serde(m) => m@,
            AppError::Validation(m) => m@,
            AppError::Parsing(m) => m@,
            AppError::Generic(m) => m@,
        }
    }

    /// The error as one line of text: the kind's prefix, then the message.
    pub fn message(&self) -> (r: String)
        ensures
            r@ == self.prefix() + self.detail(),
    {
        match self {
            AppError::Io(m) => String::from_str("IO error: ").concat(m.as_str()),
            AppError::Sqlite(m) => String::from_str("Database error: ").concat(m.as_str()),
            AppError::Serde(m) => String::from_str("Serialization error: ").concat(m.as_str()),
            AppError::Validation(m) => String::from_str("Validation error: ").concat(m.as_str()),
            AppError::Parsing(m) => String::from_str("Parsing error: ").concat(m.as_str()),
            AppError::Generic(m) => String::from_str("").concat(m.as_str()),
        }
    }
}

} // verus!
