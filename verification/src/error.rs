//! Errors that might happen while building or applying statements.

use vstd::prelude::*;

verus! {

/// The failures the library reports to its callers.
#[derive(Debug, PartialEq, Eq)]
pub enum Error {
    /// A statement could not be built or refers to something the store
    /// cannot hold.
    InvalidQueryError { error: String },
    /// The store connection, a transaction, or a statement failed.
    ConnectionError { error: String },
    /// A structured payload could not be parsed.
    JSONError { error: String },
}

impl Error {
    /// The full description of this error.
    pub open spec fn spec_message(&self) -> Seq<char> {
        match self {
            Error::InvalidQueryError { error } => "query is invalid: "@ + error@,
            Error::ConnectionError { error } => "connection error: "@ + error@,
            Error::JSONError { error } => "json error: "@ + error@,
        }
    }

    /// Describes this error, prefix and detail.
    pub fn message(&self) -> (r: String)
        ensures
            r@ == self.spec_message(),
    {
        match self {
            Error::InvalidQueryError { error } => {
                let mut out = String::from_str("query is invalid: ");
                out.append(error.as_str());
                out
            },
            Error::ConnectionError { error } => {
                let mut out = String::from_str("connection error: ");
                out.append(error.as_str());
                out
            },
            Error::JSONError { error } => {
                let mut out = String::from_str("json error: ");
                out.append(error.as_str());
                out
            },
        }
    }
}

} // verus!
