//! The failures a node operation can report.

use crate::text::{decimal, decimal_of};
use vstd::prelude::*;
use vstd::string::StringExecFns;

verus! {

/// The three classes every failure belongs to.
#[derive(Clone, Copy, Debug, PartialEq, Eq, Structural)]
pub enum ErrorKind {
    /// The request does not fit the shape of the tree or of an element.
    StructuralError,
    /// The request refers to something the host does not know.
    LookupError,
    /// A bound callback failed while it was being invoked.
    DispatchError,
}

/// A typed, recoverable failure of a node operation.
#[derive(Clone, Copy, Debug, PartialEq, Eq, Structural)]
pub enum HostError {
    /// The tag is outside the closed vocabulary.
    UnknownTag,
    /// The element already sits in some parent's child list.
    AlreadyParented { child: usize, parent: usize },
    /// The element at this id does not support the operation.
    UnsupportedOperation { id: usize },
    /// No such element, or no such relation for it.
    Lookup { id: usize },
    /// The host has no such surface at all.
    NotImplemented,
    /// The callback with this handle failed.
    Dispatch { handle: u64 },
}

impl HostError {
    /// The class of this failure.
    pub open spec fn spec_kind(self) -> ErrorKind {
        match self {
            HostError::UnknownTag => ErrorKind::StructuralError,
            HostError::AlreadyParented { .. } => ErrorKind::StructuralError,
            HostError::UnsupportedOperation { .. } => ErrorKind::StructuralError,
            HostError::NotImplemented => ErrorKind::StructuralError,
            HostError::Lookup { .. } => ErrorKind::LookupError,
            HostError::Dispatch { .. } => ErrorKind::DispatchError,
        }
    }

    /// The class of this failure.
    #[verifier::when_used_as_spec(spec_kind)]
    pub fn kind(self) -> (k: ErrorKind)
        ensures
            k == self.spec_kind(),
    {
        match self {
            HostError::UnknownTag => ErrorKind::StructuralError,
            HostError::AlreadyParented { .. } => ErrorKind::StructuralError,
            HostError::UnsupportedOperation { .. } => ErrorKind::StructuralError,
            HostError::NotImplemented => ErrorKind::StructuralError,
            HostError::Lookup { .. } => ErrorKind::LookupError,
            HostError::Dispatch { .. } => ErrorKind::DispatchError,
        }
    }
}

/// The message of a failure, as it is handed to the driving framework.
pub open spec fn message_of(e: HostError) -> Seq<char> {
    match e {
        HostError::UnknownTag => "Unknown tag"@,
        HostError::AlreadyParented { child, parent } => "Child element "@ + decimal_of(
            child as nat,
        ) + " is already a child of parent element "@ + decimal_of(parent as nat),
        HostError::UnsupportedOperation { id } => "Operation not supported by element "@
            + decimal_of(id as nat),
        HostError::Lookup { id } => "Failed to get element "@ + decimal_of(id as nat),
        HostError::NotImplemented => "Not implemented"@,
        HostError::Dispatch { handle } => "Failed to call event callback "@ + decimal_of(
            handle as nat,
        ),
    }
}

impl HostError {
    /// The message of this failure.
    pub fn message(self) -> (m: String)
        ensures
            m@ == message_of(self),
    {
        match self {
            HostError::UnknownTag => String::from_str("Unknown tag"),
            HostError::AlreadyParented { child, parent } => {
                let mut out = String::from_str("Child element ");
                out.append(decimal(child as u64).as_str());
                out.append(" is already a child of parent element ");
                out.append(decimal(parent as u64).as_str());
                out
            },
            HostError::UnsupportedOperation { id } => {
                let mut out = String::from_str("Operation not supported by element ");
                out.append(decimal(id as u64).as_str());
                out
            },
            HostError::Lookup { id } => {
                let mut out = String::from_str("Failed to get element ");
                out.append(decimal(id as u64).as_str());
                out
            },
            HostError::NotImplemented => String::from_str("Not implemented"),
            HostError::Dispatch { handle } => {
                let mut out = String::from_str("Failed to call event callback ");
                out.append(decimal(handle).as_str());
                out
            },
        }
    }
}

} // verus!
