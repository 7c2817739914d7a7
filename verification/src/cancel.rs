//! Trusted interface to tokio-util's `CancellationToken`.
//!
//! A token is a shared, settable flag: any clone may signal it and every
//! clone observes it.  Because the flag is shared across threads, nothing
//! useful can be promised about the value `is_cancelled` returns; callers
//! take the returned `bool` as an input and are verified for both values.

use vstd::prelude::*;

use tokio_util::sync::CancellationToken;

verus! {

#[verifier::external_type_specification]
#[verifier::external_body]
pub struct ExCancellationToken(CancellationToken);

/// Relies on tokio_util::sync::CancellationToken::new: a fresh token,
/// sharing its flag with nothing created before.
#[verifier::external_body]
pub(crate) fn token_new() -> CancellationToken {
    CancellationToken::new()
}

/// Relies on tokio_util::sync::CancellationToken::clone: the clone shares
/// the original's flag.
#[verifier::external_body]
pub(crate) fn token_clone(t: &CancellationToken) -> CancellationToken {
    t.clone()
}

/// Relies on tokio_util::sync::CancellationToken::cancel: signals the
/// shared flag; every holder of this token or a clone of it observes it.
#[verifier::external_body]
pub(crate) fn token_cancel(t: &CancellationToken) {
    t.cancel()
}

/// Relies on tokio_util::sync::CancellationToken::is_cancelled: reads the
/// shared flag.  Another holder may signal it at any moment, so nothing is
/// stated about the result.
#[verifier::external_body]
pub(crate) fn token_is_cancelled(t: &CancellationToken) -> bool {
    t.is_cancelled()
}

} // verus!
