//! The thread-safety bound on what a host implements.

use vstd::prelude::*;

verus! {

/// What every type a host hands to this library satisfies.
///
/// Implemented for every type that can be shared between threads, so no host
/// type ever names it.
pub trait MaybeSend: Send + Sync {

}

impl<T: Send + Sync> MaybeSend for T {

}

} // verus!
