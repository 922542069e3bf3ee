//! Oracle aggregation core for a per-block price feed.
//!
//! The library keeps a bounded, insertion-ordered window of recently
//! accepted price samples, derives a consensus reference value as the
//! median of that window, and rejects an incoming sample whose absolute
//! drift from the reference exceeds a configured tolerance. All state
//! changes are atomic: a rejected sample leaves the persisted state
//! untouched.

pub mod codec;
pub mod consensus;
pub mod oracle;
pub mod window;

use vstd::prelude::*;

verus! {

/// Why an invocation failed. Every error is terminal for the invocation:
/// no state is changed and nothing is retried at this layer.
#[derive(Clone, Copy, Debug, PartialEq, Eq, Structural)]
pub enum Error {
    /// The caller is not the privileged inherent-submission path.
    Unauthorized,
    /// The host could not supply a price for this block.
    MissingData,
    /// The proposed price differs from the window median by more than
    /// the tolerance.
    DriftExceeded,
    /// Persisted or inbound data could not be interpreted as the
    /// expected numeric type.
    DecodingError,
}

/// Where a call into the module came from. Only the block-production
/// inherent mechanism may submit a price.
#[derive(Clone, Copy, Debug, PartialEq, Eq, Structural)]
pub enum Origin {
    /// The per-block inherent submission path of the block producer.
    Inherent,
    /// Any other caller, such as an ordinary user transaction.
    External,
}

} // verus!
