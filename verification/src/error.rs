//! The ways an operation on the graph can fail.

use vstd::prelude::*;

verus! {

/// Why an operation on the graph was refused.
#[derive(Clone, Copy, Debug, PartialEq, Eq, Structural)]
pub enum GraphError {
    /// The bytes of a UUID are not sixteen.
    InvalidUuid,
    /// A number on the wire names no value of a closed enum.
    InvalidEnum,
    /// Another live node already has the UUID.
    DuplicateUuid,
    /// The handle names no live node of its kind in this context.
    StaleHandle,
    /// The node is not a child of the stated parent.
    WrongParent,
}

impl GraphError {
    /// A short description of the failure.
    pub fn message(&self) -> (text: String)
        ensures
            text@ == self.message_text(),
    {
        match self {
            GraphError::InvalidUuid => "invalid UUID".to_owned(),
            GraphError::InvalidEnum => "invalid enum value".to_owned(),
            GraphError::DuplicateUuid => "duplicate UUID".to_owned(),
            GraphError::StaleHandle => "stale handle".to_owned(),
            GraphError::WrongParent => "wrong parent".to_owned(),
        }
    }

    /// The text of [`GraphError::message`].
    pub open spec fn message_text(&self) -> Seq<char> {
        match self {
            GraphError::InvalidUuid => "invalid UUID"@,
            GraphError::InvalidEnum => "invalid enum value"@,
            GraphError::DuplicateUuid => "duplicate UUID"@,
            GraphError::StaleHandle => "stale handle"@,
            GraphError::WrongParent => "wrong parent"@,
        }
    }
}

} // verus!
