//! Typed DMA regions.
//!
//! A [`DMAVec`] is one physically contiguous DMA allocation viewed as `len`
//! entries of `entry_size` bytes each: the shape both rings and the identify
//! buffers come in.

use vstd::prelude::*;

use crate::err::Error;
use crate::platform::{zero_bytes, Direction, Platform};
use crate::DMAMem;

verus! {

/// One DMA region holding `len` entries of `entry_size` bytes.
pub struct DMAVec {
    pub mem: DMAMem,
    pub len: usize,
    pub entry_size: usize,
}

impl DMAVec {
    /// The region is live on `p`, its shadow has the allocated length, and
    /// its size is exactly `len` entries of `entry_size` bytes.
    pub open spec fn wf<P: Platform>(&self, p: &P) -> bool {
        &&& p.dma().contains_key(self.mem.handle)
        &&& p.dma()[self.mem.handle].len() == self.mem.size
        &&& self.mem.size == self.len * self.entry_size
    }

    /// Allocate a zeroed region of `len` entries of `entry_size` bytes whose
    /// bus address is a multiple of `align`.
    pub fn zeros<P: Platform>(
        p: &mut P,
        len: usize,
        entry_size: usize,
        align: usize,
        direction: Direction,
    ) -> (r: Result<DMAVec, Error>)
        requires
            1 <= align,
        ensures
            final(p).reg_writes() == old(p).reg_writes(),
            match r {
                Ok(v) => {
                    &&& v.wf(final(p))
                    &&& v.len == len
                    &&& v.entry_size == entry_size
                    &&& v.mem.phys % (align as u64) == 0
                    &&& !old(p).dma().contains_key(v.mem.handle)
                    &&& final(p).dma() == old(p).dma().insert(
                        v.mem.handle,
                        zero_bytes(v.mem.size as nat),
                    )
                },
                Err(e) => {
                    &&& final(p).dma() == old(p).dma()
                    &&& (e == Error::Layout || e == Error::NoMemory)
                    &&& (e == Error::Layout <==> len * entry_size > usize::MAX)
                },
            },
    {
        let size = match len.checked_mul(entry_size) {
            Some(s) => s,
            None => {
                return Err(Error::Layout);
            },
        };
        match p.dma_alloc(size, align, direction) {
            Some(m) => Ok(DMAVec { mem: m, len, entry_size }),
            None => Err(Error::NoMemory),
        }
    }

    /// The bus address the device uses to reach the region.
    pub fn bus_addr(&self) -> (r: u64)
        ensures
            r == self.mem.phys,
    {
        self.mem.phys
    }

    /// Release the region; the caller guarantees the device is done with it.
    pub fn free<P: Platform>(self, p: &mut P)
        requires
            old(p).dma().contains_key(self.mem.handle),
        ensures
            final(p).dma() == old(p).dma().remove(self.mem.handle),
            final(p).reg_writes() == old(p).reg_writes(),
    {
        p.dma_free(self.mem);
    }
}

} // verus!
