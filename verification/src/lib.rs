//! Synchronous NVMe host-controller driver core.
//!
//! The protocol engine — controller bring-up, the submission/completion
//! queue pair with its doorbell and phase-bit discipline, the command-set
//! encoding, and the block I/O path — is written against a [`platform::Platform`]
//! port that supplies DMA-coherent memory, cache maintenance and access to the
//! controller's memory-mapped registers.  An embedding system implements the
//! port once for its hardware; everything above the port is verified.

use vstd::prelude::*;

pub mod command;
pub mod dma;
pub mod err;
pub mod nvme;
pub mod platform;
pub mod queue;
pub mod registers;
pub mod wire;

pub use nvme::Config;
pub use nvme::Namespace;
pub use nvme::Nvme;

verus! {

/// A DMA-coherent allocation handed out by the platform.
///
/// `handle` identifies the region to the platform on every later access,
/// `phys` is the bus address the device uses to reach it, and `size` is its
/// length in bytes.
#[derive(Debug, Clone, Copy)]
pub struct DMAMem {
    pub handle: u64,
    pub phys: u64,
    pub size: usize,
}

} // verus!
