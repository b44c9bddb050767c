//! The failures of a synchronisation cycle.

use vstd::prelude::*;

verus! {

/// What a payload can lack, or hold that cannot be stored.
#[derive(Clone, Copy, Debug, PartialEq, Eq, Structural)]
pub enum FormatError {
    /// The document has no `features` member, or one that is no array.
    MissingFeatures,
    /// An element has no `type` string, or its geometry has none.
    MissingType,
    /// The coordinates or a property value of an element have no JSON text.
    Unencodable,
}

/// The failure of one stage of a cycle.
#[derive(Clone, Copy, Debug, PartialEq, Eq, Structural)]
pub enum SyncError {
    /// The store cannot be opened at the configured path.
    Config,
    /// The request did not reach the endpoint, or no response came back.
    Network,
    /// The response body is no text, or no JSON.
    Protocol,
    /// The document is JSON but no feature collection.
    Format(FormatError),
    /// The store refused a row.
    Storage,
}

impl FormatError {
    /// The words of the message.
    pub open spec fn message_text(self) -> Seq<char> {
        match self {
            FormatError::MissingFeatures => "missing features array"@,
            FormatError::MissingType => "missing type"@,
            FormatError::Unencodable => "value without JSON text"@,
        }
    }

    /// The message that describes the failure.
    pub fn message(&self) -> (r: &'static str)
        ensures
            r@ == self.message_text(),
    {
        match self {
            FormatError::MissingFeatures => "missing features array",
            FormatError::MissingType => "missing type",
            FormatError::Unencodable => "value without JSON text",
        }
    }
}

impl SyncError {
    /// The words of the message.
    pub open spec fn message_text(self) -> Seq<char> {
        match self {
            SyncError::Config => "store path cannot be read"@,
            SyncError::Network => "transport failure"@,
            SyncError::Protocol => "malformed response body"@,
            SyncError::Format(inner) => inner.message_text(),
            SyncError::Storage => "storage failure"@,
        }
    }

    /// The message that a caller of a manual trigger is given.
    pub fn message(&self) -> (r: &'static str)
        ensures
            r@ == self.message_text(),
    {
        match self {
            SyncError::Config => "store path cannot be read",
            SyncError::Network => "transport failure",
            SyncError::Protocol => "malformed response body",
            SyncError::Format(inner) => inner.message(),
            SyncError::Storage => "storage failure",
        }
    }
}

} // verus!
