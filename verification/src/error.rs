//! The ways in which a probe can fail.

use vstd::prelude::*;

verus! {

/// Why a probe stopped before it had reported. Every failure is final:
/// nothing is retried.
#[derive(Debug, PartialEq, Eq)]
pub enum NotifyError {
    /// The engine did not answer a list or an inspect request.
    Engine { message: String },
    /// The notification could not be serialised.
    Format { message: String },
    /// The webhook was not reached, or answered outside the 2xx range. The
    /// status is absent when no answer came at all.
    Delivery { status: Option<u16>, body: String },
    /// The engine listed a container that has neither a name nor an id.
    DataIntegrity,
}

} // verus!
