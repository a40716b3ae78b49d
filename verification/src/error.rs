//! The errors of the storage layer.

use vstd::prelude::*;
use vstd::std_specs::convert::FromSpecImpl;
use vstd::string::StringExecFns;

verus! {

/// What a storage operation can fail with.
#[derive(Debug, PartialEq, Eq)]
pub enum Error {
    /// The backend failed: I/O, connectivity or malformed stored data.
    InternalError(String),
    /// A value was not what the writer expected it to be; the caller
    /// retries with fresh state.
    AssertValueFailed,
}

/// The result of a storage operation.
pub type Result<T> = std::result::Result<T, Error>;

impl Error {
    /// The message of the error.
    pub open spec fn message(&self) -> Seq<char> {
        match self {
            Error::InternalError(msg) => "Internal Error: "@ + msg@,
            Error::AssertValueFailed => "Transaction failed: Hash mismatch"@,
        }
    }

    /// The error as text.
    pub fn to_string(&self) -> (text: String)
        ensures
            text@ == self.message(),
    {
        match self {
            Error::InternalError(msg) => {
                let mut text = String::from_str("Internal Error: ");
                text.append(msg.as_str());
                text
            },
            Error::AssertValueFailed => String::from_str("Transaction failed: Hash mismatch"),
        }
    }
}

impl From<String> for Error {
    fn from(msg: String) -> (error: Error) {
        Error::InternalError(msg)
    }
}

impl FromSpecImpl<String> for Error {
    open spec fn obeys_from_spec() -> bool {
        true
    }

    open spec fn from_spec(msg: String) -> Error {
        Error::InternalError(msg)
    }
}

} // verus!
