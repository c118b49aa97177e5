use vstd::prelude::*;

use crate::strutil::spec_contains;
use crate::strutil::str_contains;

verus! {

/// The closed error taxonomy of the client.
///
/// `InvalidListError`, `InvalidTaskError` and `InvalidParentIdError`
/// report that the referenced list or parent task does not exist or is
/// not visible to the caller. `TokenRefreshFailedError` means a request
/// was rejected for authentication, a refresh was attempted, and the
/// refresh itself failed: the session is dead. `NetworkError` carries
/// any lower-level transport failure, `DecodeError` a response body
/// that matched no expected shape, `UnknownError` a server-reported
/// message that matched no known pattern, and `SqliteError` a failure
/// of the local cache store.
#[derive(Debug, Clone, PartialEq, Eq)]
pub enum CheckvistError {
    InvalidParentIdError,
    InvalidListError,
    InvalidTaskError,
    UnknownError { message: String },
    NetworkError { message: String },
    DecodeError { message: String },
    TokenRefreshFailedError,
    SqliteError { message: String },
}

impl CheckvistError {
    /// The error reports a list or task that does not exist or is not
    /// available to the caller.
    pub open spec fn spec_is_resource_not_found(&self) -> bool {
        match *self {
            CheckvistError::InvalidParentIdError => true,
            CheckvistError::InvalidListError => true,
            CheckvistError::InvalidTaskError => true,
            _ => false,
        }
    }

    pub fn is_resource_not_found(&self) -> (r: bool)
        ensures
            r == self.spec_is_resource_not_found(),
    {
        match *self {
            CheckvistError::InvalidParentIdError => true,
            CheckvistError::InvalidListError => true,
            CheckvistError::InvalidTaskError => true,
            _ => false,
        }
    }
}

/// The server wording that marks a missing or inaccessible list.
pub open spec fn needle_list() -> Seq<char> {
    "The list doesn't exist or is not available to you"@
}

/// The server wording that marks an invalid parent task id.
pub open spec fn needle_parent() -> Seq<char> {
    "Invalid parent_id"@
}

/// How a server-reported message classifies: the two known wordings
/// name a missing resource; anything else is kept verbatim as unknown.
pub open spec fn spec_classification_of(m: Seq<char>, r: CheckvistError) -> bool {
    if spec_contains(m, needle_list()) {
        r == CheckvistError::InvalidListError
    } else if spec_contains(m, needle_parent()) {
        r == CheckvistError::InvalidParentIdError
    } else {
        match r {
            CheckvistError::UnknownError { message } => message@ == m,
            _ => false,
        }
    }
}

/// Classify a server error message by the known wordings.
pub fn classify_message(message: String) -> (r: CheckvistError)
    ensures
        spec_classification_of(message@, r),
{
    if str_contains(message.as_str(), "The list doesn't exist or is not available to you") {
        CheckvistError::InvalidListError
    } else if str_contains(message.as_str(), "Invalid parent_id") {
        CheckvistError::InvalidParentIdError
    } else {
        CheckvistError::UnknownError { message }
    }
}

} // verus!
