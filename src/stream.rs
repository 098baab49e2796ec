//! Byte streams that a transport can be built on.
use vstd::prelude::*;

verus! {

/// Marks a byte stream that can be read from and written to asynchronously.
pub trait AsyncStream {}

} // verus!
