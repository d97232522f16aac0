//! What a failed model call means for the caller.

use crate::ai::delay::Delay;
use vstd::prelude::*;

verus! {

/// The class of an error that a provider returned.
#[derive(Debug, Clone, Copy, PartialEq, Eq)]
pub enum AiErrorClass {
    /// The same request, unchanged, will fail again.
    Fatal,
    /// The account is over its quota: no call of it will succeed for a while.
    RateLimit { retry_after: Delay },
    /// A momentary fault of the server, which concerns this call only.
    Transient { retry_after: Delay },
}

impl AiErrorClass {
    /// Whether the call is worth another attempt.
    pub open spec fn retryable(self) -> bool {
        !(self is Fatal)
    }
}

} // verus!
