//! The decisions of the helpers that move an exact number of bytes through a
//! transport whose primitive may move fewer per call.
use vstd::prelude::*;

verus! {

/// What to do after the transport moved some bytes.
#[derive(Debug, Clone, Copy, PartialEq, Eq, Structural)]
pub enum TransferStep {
    /// Call the primitive again; this many bytes are done.
    Continue(usize),
    /// All requested bytes are done.
    Done,
    /// The transport stopped short: it moved nothing, or more than was asked.
    Short,
}

/// The next step when `done` of `total` bytes were done and the primitive
/// just moved `moved` more.
pub fn transfer_step(done: usize, total: usize, moved: usize) -> (r: TransferStep)
    requires
        done < total,
    ensures
        moved == 0 || moved > total - done <==> r is Short,
        0 < moved && done + moved == total <==> r is Done,
        r matches TransferStep::Continue(n) ==> 0 < moved && n == done + moved && n < total,
        0 < moved && done + moved < total ==> r == TransferStep::Continue((done + moved) as usize),
{
    if moved == 0 || moved > total - done {
        TransferStep::Short
    } else if done + moved == total {
        TransferStep::Done
    } else {
        TransferStep::Continue(done + moved)
    }
}

} // verus!
