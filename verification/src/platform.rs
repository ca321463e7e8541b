//! The platform port.
//!
//! The driver core never touches hardware directly: DMA-coherent memory,
//! cache maintenance and the controller's memory-mapped register window are
//! reached through the [`Platform`] trait, which the embedding system
//! implements once for its machine.  The port carries two pieces of ghost
//! state that the contracts of the driver are phrased over: a shadow of the
//! bytes the driver last wrote to each DMA region, and the sequence of
//! register stores performed so far (doorbell ordering is stated over it).
//!
//! The device owns the other half of every ring: nothing is promised about
//! the bytes a DMA read returns, and nothing about the values register reads
//! return.  The driver is verified to behave correctly whatever comes back.
//!
//! One modeling limit, stated plainly: the shadow map and the store log are
//! two separate pieces of ghost state, so the contracts cannot express that
//! a cache flush completes *before* a later doorbell store reaches the
//! device.  The driver calls `flush_for_device` before ringing a doorbell,
//! and an implementation must make that call a release barrier; the
//! contracts order the stores among themselves and the shadow writes among
//! themselves, not the two against each other.

use vstd::prelude::*;

use crate::DMAMem;

verus! {

/// Transfer direction of a DMA region, a hint the allocator may use to pick
/// cacheability.
#[derive(Debug, Clone, Copy, PartialEq, Eq, Structural)]
pub enum Direction {
    ToDevice,
    FromDevice,
    Bidirectional,
}

/// One register store performed through the port, as recorded in the port's
/// ghost log.  A 32-bit store is recorded with its value zero-extended.
#[derive(Debug, Clone, Copy, PartialEq, Eq, Structural)]
pub struct RegWrite {
    pub offset: u64,
    pub value: u64,
}

/// `n` zero bytes: the contents of a fresh DMA region.
pub open spec fn zero_bytes(n: nat) -> Seq<u8> {
    Seq::new(n, |i: int| 0u8)
}

/// `s` with the bytes at `off .. off + data.len()` replaced by `data`.
pub open spec fn splice_bytes(s: Seq<u8>, off: int, data: Seq<u8>) -> Seq<u8>
    recommends
        0 <= off,
        off + data.len() <= s.len(),
{
    s.subrange(0, off) + data + s.subrange(off + data.len(), s.len() as int)
}

pub proof fn lemma_splice_bytes_len(s: Seq<u8>, off: int, data: Seq<u8>)
    requires
        0 <= off,
        off + data.len() <= s.len(),
    ensures
        splice_bytes(s, off, data).len() == s.len(),
{
}

/// What the embedding system must supply: DMA-coherent allocation, cache
/// maintenance, and access to the controller's register window (BAR0).
///
/// `dma()` is the driver's shadow of each live region — the bytes it last
/// wrote there.  The device may overwrite any region at any time, which is
/// why `dma_read` promises nothing about the bytes it returns.
/// `reg_writes()` records every register store; reads are not recorded.
pub trait Platform: Sized {
    /// Shadow contents of each live DMA region, keyed by region handle.
    /// Ghost: an implementation carries it only logically, and the default
    /// need not be overridden.
    open spec fn dma(&self) -> Map<u64, Seq<u8>> {
        Map::empty()
    }

    /// All register stores performed so far, oldest first.  Ghost, like
    /// [`Platform::dma`].
    open spec fn reg_writes(&self) -> Seq<RegWrite> {
        Seq::empty()
    }

    /// Allocate a zeroed, physically contiguous DMA region of `size` bytes,
    /// with its bus address a multiple of `align`.  Returns `None` on
    /// exhaustion.  A word to implementers: the alignment promise is about
    /// the *bus* address, so a port that allocates aligned virtual memory
    /// and then maps it must use a mapping that preserves that alignment.
    fn dma_alloc(&mut self, size: usize, align: usize, direction: Direction) -> (r: Option<
        DMAMem,
    >)
        requires
            1 <= align,
        ensures
            final(self).reg_writes() == old(self).reg_writes(),
            match r {
                Some(m) => {
                    &&& m.size == size
                    &&& m.phys % (align as u64) == 0
                    &&& !old(self).dma().contains_key(m.handle)
                    &&& final(self).dma() == old(self).dma().insert(
                        m.handle,
                        zero_bytes(size as nat),
                    )
                },
                None => final(self).dma() == old(self).dma(),
            },
    ;

    /// Release a region; the caller guarantees the device no longer
    /// references it.
    fn dma_free(&mut self, mem: DMAMem)
        requires
            old(self).dma().contains_key(mem.handle),
        ensures
            final(self).dma() == old(self).dma().remove(mem.handle),
            final(self).reg_writes() == old(self).reg_writes(),
    ;

    /// Store `data` at byte offset `offset` of the region.
    fn dma_write(&mut self, mem: &DMAMem, offset: usize, data: &[u8])
        requires
            old(self).dma().contains_key(mem.handle),
            old(self).dma()[mem.handle].len() == mem.size,
            offset + data@.len() <= mem.size,
        ensures
            final(self).dma() == old(self).dma().insert(
                mem.handle,
                splice_bytes(old(self).dma()[mem.handle], offset as int, data@),
            ),
            final(self).reg_writes() == old(self).reg_writes(),
    ;

    /// Read `len` bytes at byte offset `offset` of the region.  The device
    /// owns completion memory, so nothing is promised about the bytes beyond
    /// their count.
    fn dma_read(&mut self, mem: &DMAMem, offset: usize, len: usize) -> (r: Vec<u8>)
        requires
            old(self).dma().contains_key(mem.handle),
            offset + len <= mem.size,
        ensures
            r@.len() == len,
            final(self).dma() == old(self).dma(),
            final(self).reg_writes() == old(self).reg_writes(),
    ;

    /// Cache clean: make `len` bytes at `offset` visible to the device
    /// before it is told to look (a release barrier on coherent machines).
    fn flush_for_device(&mut self, mem: &DMAMem, offset: usize, len: usize)
        requires
            old(self).dma().contains_key(mem.handle),
            offset + len <= mem.size,
        ensures
            final(self).dma() == old(self).dma(),
            final(self).reg_writes() == old(self).reg_writes(),
    ;

    /// Cache invalidate: make device writes at `offset .. offset + len`
    /// visible to the next read (an acquire barrier on coherent machines).
    fn invalidate_for_host(&mut self, mem: &DMAMem, offset: usize, len: usize)
        requires
            old(self).dma().contains_key(mem.handle),
            offset + len <= mem.size,
        ensures
            final(self).dma() == old(self).dma(),
            final(self).reg_writes() == old(self).reg_writes(),
    ;

    /// Load the 32-bit register at `offset` from the controller's BAR.  The
    /// value is device state: nothing is promised about it.
    fn reg_read32(&mut self, offset: u64) -> (r: u32)
        ensures
            final(self).dma() == old(self).dma(),
            final(self).reg_writes() == old(self).reg_writes(),
    ;

    /// Load the 64-bit register at `offset`.
    fn reg_read64(&mut self, offset: u64) -> (r: u64)
        ensures
            final(self).dma() == old(self).dma(),
            final(self).reg_writes() == old(self).reg_writes(),
    ;

    /// Store `value` to the 32-bit register at `offset`.
    fn reg_write32(&mut self, offset: u64, value: u32)
        ensures
            final(self).dma() == old(self).dma(),
            final(self).reg_writes() == old(self).reg_writes().push(
                RegWrite { offset, value: value as u64 },
            ),
    ;

    /// Store `value` to the 64-bit register at `offset`.
    fn reg_write64(&mut self, offset: u64, value: u64)
        ensures
            final(self).dma() == old(self).dma(),
            final(self).reg_writes() == old(self).reg_writes().push(RegWrite { offset, value }),
    ;

    /// Wait at least `ms` milliseconds; used to pace the bring-up polls
    /// against the `CAP.TO` budget.
    fn delay_ms(&mut self, ms: u64)
        ensures
            final(self).dma() == old(self).dma(),
            final(self).reg_writes() == old(self).reg_writes(),
    ;

    /// A spin-loop hint for the completion poll.
    fn cpu_relax(&mut self)
        ensures
            final(self).dma() == old(self).dma(),
            final(self).reg_writes() == old(self).reg_writes(),
    ;
}

} // verus!
