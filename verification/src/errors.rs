//! The error taxonomy of the session machine. Per-request failures are local
//! to the requesting operation and never invalidate session state.
use vstd::prelude::*;

verus! {

/// What a session, collection or document operation can fail with.
#[derive(Debug, Clone)]
pub enum VMErrors {
    /// The named session is not in memory.
    ProcessNotFound(String),
    /// The named document is absent from its collection.
    DocumentNotFound(String),
    /// A snapshot or message could not be encoded or decoded.
    SerializationError(String),
    /// A subscriber's connection failed.
    WebSocketError(String),
    /// A collection could not accept the mutation (its id space is spent).
    CollectionUpdateError(String),
    /// A document carried an unusable id.
    InvalidDocumentNonce(String),
    /// A request id was seen before (reserved; no operation consults it).
    DuplicateRequest,
    /// The named collection does not exist in the session.
    CollectionNotFound(String),
}

impl VMErrors {
    /// A short stable name for the error's kind, for logging at the edges.
    pub fn kind(&self) -> (r: &'static str)
        ensures
            r@ == match self {
                VMErrors::ProcessNotFound(_) => "process not found"@,
                VMErrors::DocumentNotFound(_) => "document not found"@,
                VMErrors::SerializationError(_) => "serialization error"@,
                VMErrors::WebSocketError(_) => "websocket error"@,
                VMErrors::CollectionUpdateError(_) => "collection update error"@,
                VMErrors::InvalidDocumentNonce(_) => "invalid document nonce"@,
                VMErrors::DuplicateRequest => "duplicate request"@,
                VMErrors::CollectionNotFound(_) => "collection not found"@,
            },
    {
        match self {
            VMErrors::ProcessNotFound(_) => "process not found",
            VMErrors::DocumentNotFound(_) => "document not found",
            VMErrors::SerializationError(_) => "serialization error",
            VMErrors::WebSocketError(_) => "websocket error",
            VMErrors::CollectionUpdateError(_) => "collection update error",
            VMErrors::InvalidDocumentNonce(_) => "invalid document nonce",
            VMErrors::DuplicateRequest => "duplicate request",
            VMErrors::CollectionNotFound(_) => "collection not found",
        }
    }
}

} // verus!
