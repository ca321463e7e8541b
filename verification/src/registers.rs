//! The controller's register map.
//!
//! Offsets are fixed by the NVMe specification.  [`NvmeReg`] caches the
//! capability register, read once at bring-up; the doorbell stride in
//! particular must be read once and reused for every doorbell computation.
//! Every store's offset and value are pinned in the contracts through the
//! platform's register-write log.

use vstd::prelude::*;

use crate::err::Error;
use crate::platform::{Platform, RegWrite};

verus! {

/// Controller capabilities (64-bit, read-only).
pub const REG_CAP: u64 = 0x00;

/// Controller version (32-bit, read-only).
pub const REG_VS: u64 = 0x08;

/// Controller configuration (32-bit, read-write).
pub const REG_CC: u64 = 0x14;

/// Controller status (32-bit).
pub const REG_CSTS: u64 = 0x1C;

/// Admin queue attributes: the two zero-based admin ring sizes.
pub const REG_AQA: u64 = 0x24;

/// Admin submission queue base address (64-bit).
pub const REG_ASQ: u64 = 0x28;

/// Admin completion queue base address (64-bit).
pub const REG_ACQ: u64 = 0x30;

/// First doorbell register.
pub const DOORBELL_BASE: u64 = 0x1000;

/// Queue base addresses must have their low twelve bits clear.
pub const QUEUE_BASE_MASK: u64 = 0xFFFF_FFFF_FFFF_F000;

/// `CSTS.RDY`.
pub const CSTS_RDY: u32 = 0x1;

/// `CSTS.CFS` — controller fatal status.
pub const CSTS_CFS: u32 = 0x2;

/// The register window of one controller, with its capability register
/// cached from bring-up.
#[derive(Debug, Clone, Copy, PartialEq, Eq, Structural)]
pub struct NvmeReg {
    pub cap: u64,
}

impl NvmeReg {
    /// Maximum queue entries supported, encoded as depth minus one
    /// (`CAP.MQES`, bits 15:0).
    pub open spec fn spec_mqes(&self) -> u16 {
        (self.cap & 0xFFFF) as u16
    }

    /// Ready timeout in 500 ms units (`CAP.TO`, bits 31:24).
    pub open spec fn spec_to(&self) -> u64 {
        ((self.cap >> 24) & 0xFF) as u64
    }

    /// Doorbell stride exponent (`CAP.DSTRD`, bits 35:32).
    pub open spec fn spec_dstrd(&self) -> u64 {
        ((self.cap >> 32) & 0xF) as u64
    }

    /// Bytes between adjacent doorbells: `4 << DSTRD`.
    pub open spec fn spec_doorbell_stride(&self) -> u64 {
        (4u64 << self.spec_dstrd()) as u64
    }

    /// Offset of the submission-queue tail doorbell of queue `y`.
    pub open spec fn spec_sq_doorbell_offset(&self, y: u16) -> u64 {
        (0x1000 + 2 * (y as int) * (self.spec_doorbell_stride() as int)) as u64
    }

    /// Offset of the completion-queue head doorbell of queue `y`.
    pub open spec fn spec_cq_doorbell_offset(&self, y: u16) -> u64 {
        (0x1000 + (2 * (y as int) + 1) * (self.spec_doorbell_stride() as int)) as u64
    }

    /// Read and cache the capability register.
    pub fn new<P: Platform>(p: &mut P) -> (r: NvmeReg)
        ensures
            final(p).dma() == old(p).dma(),
            final(p).reg_writes() == old(p).reg_writes(),
    {
        NvmeReg { cap: p.reg_read64(REG_CAP) }
    }

    /// `CAP.MQES`: the deepest queue the controller supports, minus one.
    pub fn mqes(&self) -> (r: u16)
        ensures
            r == self.spec_mqes(),
    {
        proof {
            let c = self.cap;
            assert(c & 0xFFFF <= 0xFFFF) by (bit_vector);
        }
        (self.cap & 0xFFFF) as u16
    }

    /// `CAP.TO` in 500 ms units.
    pub fn timeout_units(&self) -> (r: u64)
        ensures
            r == self.spec_to(),
            r <= 0xFF,
    {
        proof {
            let c = self.cap;
            assert((c >> 24) & 0xFF <= 0xFF) by (bit_vector);
        }
        (self.cap >> 24) & 0xFF
    }

    /// `CAP.DSTRD`, at most fifteen.
    pub fn dstrd(&self) -> (r: u64)
        ensures
            r == self.spec_dstrd(),
            r <= 0xF,
    {
        proof {
            let c = self.cap;
            assert((c >> 32) & 0xF <= 0xF) by (bit_vector);
        }
        (self.cap >> 32) & 0xF
    }

    /// The major, minor and tertiary fields of a version-register value.
    pub open spec fn spec_version_fields(vs: u32) -> (usize, usize, usize) {
        ((((vs >> 16) & 0xFF) as usize), (((vs >> 8) & 0xFF) as usize), ((vs & 0xFF) as usize))
    }

    /// Decode a version-register value into major, minor and tertiary.
    pub fn decode_version(vs: u32) -> (r: (usize, usize, usize))
        ensures
            r == Self::spec_version_fields(vs),
    {
        proof {
            assert((vs >> 16) & 0xFF <= 0xFF) by (bit_vector);
            assert((vs >> 8) & 0xFF <= 0xFF) by (bit_vector);
            assert(vs & 0xFF <= 0xFF) by (bit_vector);
        }
        ((((vs >> 16) & 0xFF) as usize), (((vs >> 8) & 0xFF) as usize), ((vs & 0xFF) as usize))
    }

    /// Read the version register and split its fields: the triple is the
    /// decoding of one version-register value.
    pub fn version<P: Platform>(&self, p: &mut P) -> (r: (usize, usize, usize))
        ensures
            final(p).dma() == old(p).dma(),
            final(p).reg_writes() == old(p).reg_writes(),
            exists|vs: u32| r == #[trigger] Self::spec_version_fields(vs),
    {
        let vs = p.reg_read32(REG_VS);
        let r = Self::decode_version(vs);
        proof {
            assert(r == Self::spec_version_fields(vs));
        }
        r
    }

    /// Whether a status-register value signals controller fatal status.
    pub open spec fn spec_csts_fatal(csts: u32) -> bool {
        csts & CSTS_CFS != 0
    }

    /// Whether a status-register value signals ready.
    pub open spec fn spec_csts_ready(csts: u32) -> bool {
        csts & CSTS_RDY != 0
    }

    /// Store the admin submission queue base address, low twelve bits
    /// masked off.
    pub fn set_admin_submission_queue_base_address<P: Platform>(&self, p: &mut P, addr: u64)
        ensures
            final(p).dma() == old(p).dma(),
            final(p).reg_writes() == old(p).reg_writes().push(
                RegWrite { offset: REG_ASQ, value: (addr & QUEUE_BASE_MASK) as u64 },
            ),
    {
        p.reg_write64(REG_ASQ, addr & QUEUE_BASE_MASK);
    }

    /// Store the admin completion queue base address, low twelve bits
    /// masked off.
    pub fn set_admin_completion_queue_base_address<P: Platform>(&self, p: &mut P, addr: u64)
        ensures
            final(p).dma() == old(p).dma(),
            final(p).reg_writes() == old(p).reg_writes().push(
                RegWrite { offset: REG_ACQ, value: (addr & QUEUE_BASE_MASK) as u64 },
            ),
    {
        p.reg_write64(REG_ACQ, addr & QUEUE_BASE_MASK);
    }

    /// The AQA value for the two admin ring depths: both fields zero-based.
    pub open spec fn spec_aqa(submission_size: usize, completion_size: usize) -> u32 {
        ((submission_size - 1) as u32 | (((completion_size - 1) as u32) << 16)) as u32
    }

    /// Store the admin ring depths to AQA, zero-based in bits 11:0 and
    /// 27:16.
    pub fn set_admin_submission_and_completion_queue_size<P: Platform>(
        &self,
        p: &mut P,
        submission_size: usize,
        completion_size: usize,
    )
        requires
            1 <= submission_size <= 0x1000,
            1 <= completion_size <= 0x1000,
        ensures
            final(p).dma() == old(p).dma(),
            final(p).reg_writes() == old(p).reg_writes().push(
                RegWrite {
                    offset: REG_AQA,
                    value: Self::spec_aqa(submission_size, completion_size) as u64,
                },
            ),
    {
        let v: u32 = ((submission_size - 1) as u32) | (((completion_size - 1) as u32) << 16);
        p.reg_write32(REG_AQA, v);
    }

    /// The CC value bring-up writes: enable set, NVM command set, round-
    /// robin arbitration, no shutdown notification, with the given memory
    /// page size and I/O entry-size exponents.
    pub open spec fn spec_cc_value(mps: u32, iosqes: u32, iocqes: u32) -> u32 {
        (1u32 | (mps << 7) | (iosqes << 16) | (iocqes << 20)) as u32
    }

    /// Write CC with enable set, then wait for `CSTS.RDY`, bounded by the
    /// `CAP.TO` budget of 500 ms units.  Controller fatal status aborts the
    /// wait.
    pub fn enable_ctrl<P: Platform>(&self, p: &mut P, mps: u32, iosqes: u32, iocqes: u32) -> (r:
        Result<(), Error>)
        requires
            mps <= 0xF,
            iosqes <= 0xF,
            iocqes <= 0xF,
        ensures
            final(p).dma() == old(p).dma(),
            final(p).reg_writes() == old(p).reg_writes().push(
                RegWrite { offset: REG_CC, value: Self::spec_cc_value(mps, iosqes, iocqes) as u64 },
            ),
            r is Err ==> (r == Err::<(), Error>(Error::Timeout) || r == Err::<(), Error>(
                Error::Fatal,
            )),
    {
        let cc: u32 = 1u32 | (mps << 7) | (iosqes << 16) | (iocqes << 20);
        p.reg_write32(REG_CC, cc);
        self.wait_status(p, true)
    }

    /// Clear CC, taking the controller back to disabled, then wait for
    /// `CSTS.RDY` to drop, bounded by the `CAP.TO` budget.
    pub fn reset<P: Platform>(&self, p: &mut P) -> (r: Result<(), Error>)
        ensures
            final(p).dma() == old(p).dma(),
            final(p).reg_writes() == old(p).reg_writes().push(
                RegWrite { offset: REG_CC, value: 0 },
            ),
            r is Err ==> (r == Err::<(), Error>(Error::Timeout) || r == Err::<(), Error>(
                Error::Fatal,
            )),
    {
        p.reg_write32(REG_CC, 0);
        self.wait_status(p, false)
    }

    /// Poll `CSTS.RDY` until it matches `want`, for at most `CAP.TO` times
    /// 500 ms.  Fatal status fails immediately; exhausting the budget fails
    /// with timeout.
    fn wait_status<P: Platform>(&self, p: &mut P, want: bool) -> (r: Result<(), Error>)
        ensures
            final(p).dma() == old(p).dma(),
            final(p).reg_writes() == old(p).reg_writes(),
            r is Err ==> (r == Err::<(), Error>(Error::Timeout) || r == Err::<(), Error>(
                Error::Fatal,
            )),
    {
        let budget: u64 = self.timeout_units() * 500;
        let mut i: u64 = 0;
        while i <= budget
            invariant
                budget <= 127500,
                i <= budget + 1,
                p.dma() == old(p).dma(),
                p.reg_writes() == old(p).reg_writes(),
            decreases budget + 1 - i,
        {
            let csts = p.reg_read32(REG_CSTS);
            if csts & CSTS_CFS != 0 {
                return Err(Error::Fatal);
            }
            if (csts & CSTS_RDY != 0) == want {
                return Ok(());
            }
            p.delay_ms(1);
            i = i + 1;
        }
        Err(Error::Timeout)
    }

    /// Ring the submission-queue tail doorbell of queue `y`.
    pub fn write_sq_y_tail_doolbell<P: Platform>(&self, p: &mut P, y: u16, tail: u32)
        ensures
            final(p).dma() == old(p).dma(),
            final(p).reg_writes() == old(p).reg_writes().push(
                RegWrite { offset: self.spec_sq_doorbell_offset(y), value: tail as u64 },
            ),
    {
        let offset = self.doorbell_offset(y, false);
        p.reg_write32(offset, tail);
    }

    /// Ring the completion-queue head doorbell of queue `y`.
    pub fn write_cq_y_head_doolbell<P: Platform>(&self, p: &mut P, y: u16, head: u32)
        ensures
            final(p).dma() == old(p).dma(),
            final(p).reg_writes() == old(p).reg_writes().push(
                RegWrite { offset: self.spec_cq_doorbell_offset(y), value: head as u64 },
            ),
    {
        let offset = self.doorbell_offset(y, true);
        p.reg_write32(offset, head);
    }

    /// The doorbell offset `0x1000 + (2 * y + side) * (4 << DSTRD)`, with
    /// `side` one for the completion side.
    fn doorbell_offset(&self, y: u16, cq_side: bool) -> (r: u64)
        ensures
            !cq_side ==> r == self.spec_sq_doorbell_offset(y),
            cq_side ==> r == self.spec_cq_doorbell_offset(y),
    {
        let d = self.dstrd();
        let stride: u64 = 4u64 << d;
        proof {
            assert(4u64 << d <= 0x20000 && 4u64 << d >= 1) by (bit_vector)
                requires
                    d <= 0xF,
            ;
        }
        let index: u64 = if cq_side {
            2 * (y as u64) + 1
        } else {
            2 * (y as u64)
        };
        proof {
            assert(index * stride <= 0x20000u64 * 0x20000) by (nonlinear_arith)
                requires
                    index <= 0x20000u64,
                    stride <= 0x20000u64,
            ;
        }
        DOORBELL_BASE + index * stride
    }
}

} // verus!
