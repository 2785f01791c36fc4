//! Error model of the engine.
//!
//! Two kinds of failure exist: a backend error wrapping a lower-level decode
//! library failure (with the originating call and source location kept for
//! diagnosis), and an internal error carrying a free-form message for logic
//! failures such as a missing stream.

use vstd::prelude::*;

verus! {

#[derive(Debug)]
pub enum MediaError {
    /// A decode-backend call failed: the call's name, the backend's error
    /// code, and the line it was observed at.
    BackendError { func: String, code: i32, line: u32 },
    /// A logic failure described by a message.
    InternalError(String),
}

impl MediaError {
    /// Whether this is a backend failure.
    pub open spec fn is_backend(&self) -> bool {
        matches!(self, MediaError::BackendError { .. })
    }

    /// Whether this is an internal logic failure.
    pub open spec fn is_internal(&self) -> bool {
        matches!(self, MediaError::InternalError(_))
    }
}

} // verus!
