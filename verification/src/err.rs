//! Error taxonomy of the driver.

use vstd::prelude::*;

verus! {

/// Everything a driver operation can fail with.
///
/// Errors bubble to the public operation that triggered them; the driver
/// performs no retries.
#[derive(Debug, Clone, Copy, PartialEq, Eq, Structural)]
pub enum Error {
    /// A DMA allocation failed.  Fatal to the operation, not to the controller.
    NoMemory,
    /// A requested DMA layout (size times entry size) cannot be represented.
    Layout,
    /// A caller-supplied argument was rejected: a transfer length of zero or
    /// one that is not a multiple of the block size, a transfer beyond what a
    /// single PRP entry covers, or a zero queue count.
    InvalidArgument,
    /// The controller did not reach the expected ready state within the
    /// budget advertised by `CAP.TO`.
    Timeout,
    /// `CSTS.CFS` was observed set; the controller is dead to us.
    Fatal,
    /// A completion carried a non-zero NVMe status; the raw status word
    /// (phase bit included) is surfaced.
    Device(u16),
}

} // verus!
