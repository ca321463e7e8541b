//! Submission entries, command construction, and the queue pair.

use vstd::prelude::*;

use crate::command::{Feature, Opcode};
use crate::dma::DMAVec;
use crate::err::Error;
use crate::platform::{splice_bytes, zero_bytes, Direction, Platform, RegWrite};
use crate::registers::{NvmeReg, CSTS_CFS, REG_CSTS};
use crate::wire::{le32, le64, push_le32, push_le64, read_u16_at, read_u64_at, u16_at, u64_at};

verus! {

/// A fully encoded 64-byte submission-queue entry.
pub struct NvmeSubmission(pub Vec<u8>);

/// Anything that can lower itself to a 64-byte submission entry.
pub trait Submission: Sized {
    /// The wire bytes this value lowers to.
    spec fn spec_submission_bytes(&self) -> Seq<u8>;

    /// Lower to the wire form.
    fn to_submission(self) -> (r: NvmeSubmission)
        ensures
            r.0@ == self.spec_submission_bytes(),
            r.0@.len() == 64,
    ;
}

/// A submission entry before encoding: one field for each command
/// double-word group of the 64-byte layout.
#[derive(Debug, Clone, Copy, PartialEq, Eq, Structural)]
pub struct CommandSet {
    pub cdw0: u32,
    pub nsid: u32,
    pub cdw2: u32,
    pub cdw3: u32,
    pub metadata: u64,
    pub prp1: u64,
    pub prp2: u64,
    pub cdw10: u32,
    pub cdw11: u32,
    pub cdw12: u32,
    pub cdw13: u32,
    pub cdw14: u32,
    pub cdw15: u32,
}

impl CommandSet {
    /// The all-zero entry every constructor starts from.
    pub open spec fn spec_zero() -> CommandSet {
        CommandSet {
            cdw0: 0,
            nsid: 0,
            cdw2: 0,
            cdw3: 0,
            metadata: 0,
            prp1: 0,
            prp2: 0,
            cdw10: 0,
            cdw11: 0,
            cdw12: 0,
            cdw13: 0,
            cdw14: 0,
            cdw15: 0,
        }
    }

    /// The 64 little-endian wire bytes of this entry.
    pub open spec fn spec_bytes(&self) -> Seq<u8> {
        le32(self.cdw0) + le32(self.nsid) + le32(self.cdw2) + le32(self.cdw3) + le64(
            self.metadata,
        ) + le64(self.prp1) + le64(self.prp2) + le32(self.cdw10) + le32(self.cdw11) + le32(
            self.cdw12,
        ) + le32(self.cdw13) + le32(self.cdw14) + le32(self.cdw15)
    }

    /// The command identifier bits 31:16 of CDW0 carry.
    pub open spec fn spec_command_id(&self) -> u16 {
        (self.cdw0 >> 16) as u16
    }

    /// This entry with the command identifier replaced.
    pub open spec fn spec_with_command_id(self, id: u16) -> CommandSet {
        CommandSet { cdw0: ((self.cdw0 & 0xFFFF) | ((id as u32) << 16)) as u32, ..self }
    }

    /// CDW0 with `opcode` in bits 7:0 and `id` in bits 31:16.
    pub fn cdw0_from_opcode(opcode: Opcode, id: u16) -> (r: u32)
        ensures
            r == ((opcode.0 as u32) | ((id as u32) << 16)) as u32,
            id == 0 ==> r == opcode.0 as u32,
            (r >> 16) as u16 == id,
            (r & 0xFF) as u8 == opcode.0,
    {
        proof {
            let o = opcode.0;
            assert(id == 0 ==> ((o as u32) | ((id as u32) << 16)) == o as u32) by (bit_vector);
            assert((((o as u32) | ((id as u32) << 16)) >> 16) as u16 == id) by (bit_vector);
            assert((((o as u32) | ((id as u32) << 16)) & 0xFF) as u8 == o) by (bit_vector);
        }
        opcode.as_u32() | ((id as u32) << 16)
    }

    /// A copy of this entry carrying `id` as its command identifier.
    pub fn with_command_id(&self, id: u16) -> (r: CommandSet)
        ensures
            r == self.spec_with_command_id(id),
            r.spec_command_id() == id,
    {
        let r = CommandSet { cdw0: (self.cdw0 & 0xFFFF) | ((id as u32) << 16), ..*self };
        proof {
            let x = self.cdw0;
            assert((((x & 0xFFFF) | ((id as u32) << 16)) >> 16) as u16 == id) by (bit_vector);
        }
        r
    }

    /// What `set_features` builds.
    pub open spec fn spec_set_features(feature: Feature) -> CommandSet {
        CommandSet {
            cdw0: 0x09,
            cdw10: feature.spec_cdw10(),
            cdw11: match feature {
                Feature::NumberOfQueues { nsq, ncq } => (nsq | (ncq << 16)) as u32,
                Feature::InterruptVectorConfiguration { .. } => 0,
            },
            ..CommandSet::spec_zero()
        }
    }

    /// Set Features: CDW10 names the feature; for Number of Queues, CDW11
    /// carries the zero-based submission and completion counts.
    pub fn set_features(feature: Feature) -> (r: CommandSet)
        ensures
            r == Self::spec_set_features(feature),
    {
        let cdw0 = Self::cdw0_from_opcode(Opcode::set_features(), 0);
        let cdw10 = feature.to_cdw10();
        let mut cdw11: u32 = 0;
        match feature {
            Feature::NumberOfQueues { nsq, ncq } => {
                cdw11 = nsq | (ncq << 16);
            },
            Feature::InterruptVectorConfiguration { .. } => {},
        }
        CommandSet { cdw0, cdw10, cdw11, ..Self::zero() }
    }

    /// What `create_io_completion_queue` builds.
    pub open spec fn spec_create_io_completion_queue(
        qid: u32,
        size: u32,
        paddr: u64,
        physically_contiguous: bool,
        interrupts_enabled: bool,
        interrupt_vector: u32,
    ) -> CommandSet {
        CommandSet {
            cdw0: 0x05,
            prp1: paddr,
            cdw10: ((qid & 0xffff) | ((((size - 1) as u32) & 0xffff) << 16)) as u32,
            cdw11: ((if physically_contiguous {
                1u32
            } else {
                0u32
            }) | (if interrupts_enabled {
                1u32 << 1
            } else {
                0u32
            }) | (interrupt_vector << 16)) as u32,
            ..CommandSet::spec_zero()
        }
    }

    /// Create I/O Completion Queue: CDW10 is `qid | (depth - 1) << 16`,
    /// CDW11 is `PC | IEN << 1 | IV << 16`, PRP1 the ring's bus address.
    pub fn create_io_completion_queue(
        qid: u32,
        size: u32,
        paddr: u64,
        physically_contiguous: bool,
        interrupts_enabled: bool,
        interrupt_vector: u32,
    ) -> (r: CommandSet)
        requires
            1 <= size,
        ensures
            r == Self::spec_create_io_completion_queue(
                qid,
                size,
                paddr,
                physically_contiguous,
                interrupts_enabled,
                interrupt_vector,
            ),
    {
        let cdw0 = Self::cdw0_from_opcode(Opcode::create_io_cq(), 0);
        let cdw10 = (qid & 0xffff) | (((size - 1) & 0xffff) << 16);
        let cdw11 = (if physically_contiguous {
            1u32
        } else {
            0u32
        }) | (if interrupts_enabled {
            1u32 << 1
        } else {
            0u32
        }) | (interrupt_vector << 16);
        CommandSet { cdw0, prp1: paddr, cdw10, cdw11, ..Self::zero() }
    }

    /// What `create_io_submission_queue` builds.
    pub open spec fn spec_create_io_submission_queue(
        qid: u32,
        size: u32,
        paddr: u64,
        physically_contiguous: bool,
        priority: u32,
        cqid: u32,
        nvm_set_id: u16,
    ) -> CommandSet {
        CommandSet {
            cdw0: 0x01,
            prp1: paddr,
            cdw10: ((qid & 0xffff) | ((((size - 1) as u32) & 0xffff) << 16)) as u32,
            cdw11: ((if physically_contiguous {
                1u32
            } else {
                0u32
            }) | (priority << 1) | (cqid << 16)) as u32,
            cdw12: nvm_set_id as u32,
            ..CommandSet::spec_zero()
        }
    }

    /// Create I/O Submission Queue: CDW10 is `qid | (depth - 1) << 16`,
    /// CDW11 is `PC | priority << 1 | cqid << 16` — the paired completion
    /// queue must already exist — and CDW12 names the NVM set.
    pub fn create_io_submission_queue(
        qid: u32,
        size: u32,
        paddr: u64,
        physically_contiguous: bool,
        priority: u32,
        cqid: u32,
        nvm_set_id: u16,
    ) -> (r: CommandSet)
        requires
            1 <= size,
        ensures
            r == Self::spec_create_io_submission_queue(
                qid,
                size,
                paddr,
                physically_contiguous,
                priority,
                cqid,
                nvm_set_id,
            ),
    {
        let cdw0 = Self::cdw0_from_opcode(Opcode::create_io_sq(), 0);
        let cdw10 = (qid & 0xffff) | (((size - 1) & 0xffff) << 16);
        let cdw11 = (if physically_contiguous {
            1u32
        } else {
            0u32
        }) | (priority << 1) | (cqid << 16);
        CommandSet { cdw0, prp1: paddr, cdw10, cdw11, cdw12: nvm_set_id as u32, ..Self::zero() }
    }

    /// What `nvm_cmd_read` builds.
    pub open spec fn spec_nvm_cmd_read(
        nsid: u32,
        paddr: u64,
        starting_lba: u64,
        blk_num: u16,
    ) -> CommandSet {
        CommandSet {
            cdw0: 0x02,
            nsid,
            prp1: paddr,
            cdw10: (starting_lba & 0xFFFFFFFF) as u32,
            cdw11: (starting_lba >> 32) as u32,
            cdw12: (blk_num - 1) as u32,
            ..CommandSet::spec_zero()
        }
    }

    /// NVM Read: CDW10/CDW11 carry the starting LBA, CDW12 bits 15:0 the
    /// zero-based block count, PRP1 the data buffer's bus address.
    pub fn nvm_cmd_read(nsid: u32, paddr: u64, starting_lba: u64, blk_num: u16) -> (r: CommandSet)
        requires
            1 <= blk_num,
        ensures
            r == Self::spec_nvm_cmd_read(nsid, paddr, starting_lba, blk_num),
    {
        let cdw0 = Self::cdw0_from_opcode(Opcode::nvm_read(), 0);
        proof {
            assert(starting_lba & 0xFFFFFFFF <= 0xFFFFFFFF) by (bit_vector);
            assert(starting_lba >> 32 <= 0xFFFFFFFF) by (bit_vector);
        }
        let low = (starting_lba & 0xFFFFFFFF) as u32;
        let high = (starting_lba >> 32) as u32;
        CommandSet {
            cdw0,
            nsid,
            prp1: paddr,
            cdw10: low,
            cdw11: high,
            cdw12: (blk_num - 1) as u32,
            ..Self::zero()
        }
    }

    /// What `nvm_cmd_write` builds.
    pub open spec fn spec_nvm_cmd_write(
        nsid: u32,
        paddr: u64,
        starting_lba: u64,
        blk_num: u16,
    ) -> CommandSet {
        CommandSet {
            cdw0: 0x01,
            nsid,
            prp1: paddr,
            cdw10: (starting_lba & 0xFFFFFFFF) as u32,
            cdw11: (starting_lba >> 32) as u32,
            cdw12: (blk_num - 1) as u32,
            ..CommandSet::spec_zero()
        }
    }

    /// NVM Write: laid out exactly as NVM Read, with the write opcode.
    pub fn nvm_cmd_write(nsid: u32, paddr: u64, starting_lba: u64, blk_num: u16) -> (r: CommandSet)
        requires
            1 <= blk_num,
        ensures
            r == Self::spec_nvm_cmd_write(nsid, paddr, starting_lba, blk_num),
    {
        let cdw0 = Self::cdw0_from_opcode(Opcode::nvm_write(), 0);
        proof {
            assert(starting_lba & 0xFFFFFFFF <= 0xFFFFFFFF) by (bit_vector);
            assert(starting_lba >> 32 <= 0xFFFFFFFF) by (bit_vector);
        }
        let low = (starting_lba & 0xFFFFFFFF) as u32;
        let high = (starting_lba >> 32) as u32;
        CommandSet {
            cdw0,
            nsid,
            prp1: paddr,
            cdw10: low,
            cdw11: high,
            cdw12: (blk_num - 1) as u32,
            ..Self::zero()
        }
    }

    /// The all-zero entry.
    pub fn zero() -> (r: CommandSet)
        ensures
            r == Self::spec_zero(),
    {
        CommandSet {
            cdw0: 0,
            nsid: 0,
            cdw2: 0,
            cdw3: 0,
            metadata: 0,
            prp1: 0,
            prp2: 0,
            cdw10: 0,
            cdw11: 0,
            cdw12: 0,
            cdw13: 0,
            cdw14: 0,
            cdw15: 0,
        }
    }
}

impl Default for CommandSet {
    /// The all-zero entry.
    fn default() -> (r: CommandSet)
        ensures
            r == CommandSet::spec_zero(),
    {
        CommandSet::zero()
    }
}

impl Submission for CommandSet {
    open spec fn spec_submission_bytes(&self) -> Seq<u8> {
        self.spec_bytes()
    }

    fn to_submission(self) -> (r: NvmeSubmission) {
        let mut v: Vec<u8> = Vec::new();
        push_le32(&mut v, self.cdw0);
        push_le32(&mut v, self.nsid);
        push_le32(&mut v, self.cdw2);
        push_le32(&mut v, self.cdw3);
        push_le64(&mut v, self.metadata);
        push_le64(&mut v, self.prp1);
        push_le64(&mut v, self.prp2);
        push_le32(&mut v, self.cdw10);
        push_le32(&mut v, self.cdw11);
        push_le32(&mut v, self.cdw12);
        push_le32(&mut v, self.cdw13);
        push_le32(&mut v, self.cdw14);
        push_le32(&mut v, self.cdw15);
        proof {
            assert(v@ =~= self.spec_bytes());
        }
        NvmeSubmission(v)
    }
}

/// Bits 31:16 of CDW0 — the command identifier — appear verbatim as bytes 2
/// and 3 of the encoded entry, where the controller copies them into the
/// matching completion.
pub proof fn lemma_command_id_on_wire(c: CommandSet, id: u16)
    ensures
        u16_at(c.spec_with_command_id(id).spec_bytes(), 2) == id,
{
    let c2 = c.spec_with_command_id(id);
    crate::wire::lemma_le32_halves(c2.cdw0);
    assert(c2.spec_bytes()[2] == le32(c2.cdw0)[2]);
    assert(c2.spec_bytes()[3] == le32(c2.cdw0)[3]);
    assert(u16_at(c2.spec_bytes(), 2) == u16_at(le32(c2.cdw0), 2));
    let x = c.cdw0;
    assert((((x & 0xFFFF) | ((id as u32) << 16)) >> 16) as u16 == id) by (bit_vector);
}

/// How many times a completion poll spins before giving up.  The design
/// wants no internal timeout on this path — the device's own command
/// timeout bounds it — but every loop here must terminate, so the poll
/// carries this bound, far beyond any device budget, and surfaces a
/// timeout error when it is ever exhausted.
pub const POLL_BOUND: u64 = 0xFFFF_FFFF;

/// The status word of a completion entry: phase in bit 0, status code in
/// bits 15:1, zero meaning success.
#[derive(Debug, Clone, Copy, PartialEq, Eq, Structural)]
pub struct CompletionStatus(pub u16);

impl CompletionStatus {
    /// The phase bit.
    pub fn phase(&self) -> (r: bool)
        ensures
            r == ((self.0 & 1) > 0),
    {
        self.0 & 1 > 0
    }

    /// Whether the status code — bits 15:1 — is zero.
    pub fn is_success(&self) -> (r: bool)
        ensures
            r == ((self.0 >> 1) == 0),
    {
        (self.0 >> 1) == 0
    }
}

/// One parsed 16-byte completion entry.
#[derive(Debug, Clone, Copy, PartialEq, Eq, Structural)]
pub struct NvmeCompletion {
    pub result: u64,
    pub sq_head: u16,
    pub sq_id: u16,
    pub command_id: u16,
    pub status: CompletionStatus,
}

/// The meaning of 16 completion bytes: an 8-byte result, the controller's
/// submission-queue head, the queue id, the echoed command id, and the
/// status word.
pub open spec fn spec_completion_of(bytes: Seq<u8>) -> NvmeCompletion
    recommends
        bytes.len() == 16,
{
    NvmeCompletion {
        result: u64_at(bytes, 0),
        sq_head: u16_at(bytes, 8),
        sq_id: u16_at(bytes, 10),
        command_id: u16_at(bytes, 12),
        status: CompletionStatus(u16_at(bytes, 14)),
    }
}

/// Parse a 16-byte completion entry.
pub fn parse_completion(bytes: &[u8]) -> (r: NvmeCompletion)
    requires
        bytes@.len() == 16,
    ensures
        r == spec_completion_of(bytes@),
{
    NvmeCompletion {
        result: read_u64_at(bytes, 0),
        sq_head: read_u16_at(bytes, 8),
        sq_id: read_u16_at(bytes, 10),
        command_id: read_u16_at(bytes, 12),
        status: CompletionStatus(read_u16_at(bytes, 14)),
    }
}

/// The command identifier survives the round trip: `with_command_id`
/// stamps it into bytes 2 and 3 of the submission entry, and a completion
/// whose command-id field — bytes 12 and 13 — echoes those bytes parses
/// back to exactly the identifier that was stamped.
pub proof fn lemma_command_id_round_trip(c: CommandSet, id: u16, completion_bytes: Seq<u8>)
    requires
        completion_bytes.len() == 16,
        u16_at(completion_bytes, 12) == u16_at(c.spec_with_command_id(id).spec_bytes(), 2),
    ensures
        spec_completion_of(completion_bytes).command_id == id,
{
    lemma_command_id_on_wire(c, id);
}

/// The submission half of a queue pair: a ring of 64-byte entries the host
/// writes and the device reads.
pub struct SubmitQueue {
    pub queue: DMAVec,
    pub tail: u32,
}

impl SubmitQueue {
    /// The ring is live, holds 64-byte entries, and `tail` is inside it.
    pub open spec fn wf<P: Platform>(&self, p: &P) -> bool {
        &&& self.queue.wf(p)
        &&& self.queue.entry_size == 64
        &&& 1 <= self.queue.len <= 0x10000
        &&& (self.tail as int) < self.queue.len
    }

    /// Allocate and zero the ring.
    pub fn new<P: Platform>(p: &mut P, queue_size: usize, align: usize) -> (r: Result<
        SubmitQueue,
        Error,
    >)
        requires
            1 <= align,
            1 <= queue_size <= 0x10000,
        ensures
            final(p).reg_writes() == old(p).reg_writes(),
            match r {
                Ok(q) => {
                    &&& q.wf(final(p))
                    &&& q.queue.len == queue_size
                    &&& q.tail == 0
                    &&& q.queue.mem.phys % (align as u64) == 0
                    &&& !old(p).dma().contains_key(q.queue.mem.handle)
                    &&& final(p).dma() == old(p).dma().insert(
                        q.queue.mem.handle,
                        zero_bytes(q.queue.mem.size as nat),
                    )
                },
                Err(e) => final(p).dma() == old(p).dma() && e == Error::NoMemory,
            },
    {
        match DMAVec::zeros(p, queue_size, 64, align, Direction::Bidirectional) {
            Ok(queue) => Ok(SubmitQueue { queue, tail: 0 }),
            Err(_) => Err(Error::NoMemory),
        }
    }

    /// Write the entry at `tail`, flush it for the device, and advance
    /// `tail` once modulo the ring depth; returns the new tail, which is
    /// what the doorbell wants.
    pub fn submit<P: Platform>(&mut self, p: &mut P, data: CommandSet) -> (tail: u32)
        requires
            old(self).wf(old(p)),
        ensures
            final(self).wf(final(p)),
            final(self).queue == old(self).queue,
            tail == final(self).tail,
            final(self).tail as int == (old(self).tail + 1) % (old(self).queue.len as int),
            final(p).reg_writes() == old(p).reg_writes(),
            forall|h: u64| #[trigger]
                old(p).dma().contains_key(h) ==> final(p).dma().contains_key(h) && final(p).dma()[h].len() == old(p).dma()[h].len(),
            final(p).dma() == old(p).dma().insert(
                old(self).queue.mem.handle,
                splice_bytes(
                    old(p).dma()[old(self).queue.mem.handle],
                    (old(self).tail as int) * 64,
                    data.spec_bytes(),
                ),
            ),
    {
        let sub = data.to_submission();
        let offset: usize = (self.tail as usize) * 64;
        proof {
            vstd::arithmetic::mul::lemma_mul_inequality(
                self.tail as int + 1,
                self.queue.len as int,
                64,
            );
            crate::platform::lemma_splice_bytes_len(
                p.dma()[self.queue.mem.handle],
                (self.tail as int) * 64,
                data.spec_bytes(),
            );
        }
        p.dma_write(&self.queue.mem, offset, sub.0.as_slice());
        p.flush_for_device(&self.queue.mem, offset, 64);
        self.tail = self.tail + 1;
        if self.tail >= (self.queue.len as u32) {
            self.tail = 0;
        }
        proof {
            if old(self).tail as int + 1 == self.queue.len as int {
                vstd::arithmetic::div_mod::lemma_mod_self_0(self.queue.len as int);
            } else {
                vstd::arithmetic::div_mod::lemma_small_mod(
                    (old(self).tail + 1) as nat,
                    self.queue.len as nat,
                );
            }
        }
        self.tail
    }

    /// The ring depth in entries.
    pub fn len(&self) -> (r: usize)
        ensures
            r == self.queue.len,
    {
        self.queue.len
    }

    /// The ring's bus address.
    pub fn bus_addr(&self) -> (r: u64)
        ensures
            r == self.queue.mem.phys,
    {
        self.queue.bus_addr()
    }
}

/// The completion half of a queue pair: a ring of 16-byte entries the
/// device writes and the host reads, completion detected by the phase bit.
pub struct CompleteQueue {
    pub queue: DMAVec,
    pub head: u32,
    pub phase: bool,
}

impl CompleteQueue {
    /// The ring is live, holds 16-byte entries, and `head` is inside it.
    pub open spec fn wf<P: Platform>(&self, p: &P) -> bool {
        &&& self.queue.wf(p)
        &&& self.queue.entry_size == 16
        &&& 1 <= self.queue.len <= 0x10000
        &&& (self.head as int) < self.queue.len
    }

    /// Allocate and zero the ring; the stored phase starts at zero, so the
    /// zeroed entries all read as not yet complete.
    pub fn new<P: Platform>(p: &mut P, queue_size: usize, align: usize) -> (r: Result<
        CompleteQueue,
        Error,
    >)
        requires
            1 <= align,
            1 <= queue_size <= 0x10000,
        ensures
            final(p).reg_writes() == old(p).reg_writes(),
            match r {
                Ok(q) => {
                    &&& q.wf(final(p))
                    &&& q.queue.len == queue_size
                    &&& q.head == 0
                    &&& q.phase == false
                    &&& q.queue.mem.phys % (align as u64) == 0
                    &&& !old(p).dma().contains_key(q.queue.mem.handle)
                    &&& final(p).dma() == old(p).dma().insert(
                        q.queue.mem.handle,
                        zero_bytes(q.queue.mem.size as nat),
                    )
                },
                Err(e) => final(p).dma() == old(p).dma() && e == Error::NoMemory,
            },
    {
        match DMAVec::zeros(p, queue_size, 16, align, Direction::Bidirectional) {
            Ok(queue) => Ok(CompleteQueue { queue, head: 0, phase: false }),
            Err(_) => Err(Error::NoMemory),
        }
    }

    /// Invalidate and read the entry at `head`; it is a fresh completion
    /// exactly when its phase bit differs from the stored phase.
    pub fn complete<P: Platform>(&self, p: &mut P) -> (r: Option<NvmeCompletion>)
        requires
            self.wf(old(p)),
        ensures
            final(p).dma() == old(p).dma(),
            final(p).reg_writes() == old(p).reg_writes(),
            r matches Some(c) ==> ((c.status.0 & 1) > 0) != self.phase,
    {
        let offset: usize = (self.head as usize) * 16;
        proof {
            vstd::arithmetic::mul::lemma_mul_inequality(
                self.head as int + 1,
                self.queue.len as int,
                16,
            );
        }
        p.invalidate_for_host(&self.queue.mem, offset, 16);
        let bytes = p.dma_read(&self.queue.mem, offset, 16);
        let cqe = parse_completion(bytes.as_slice());
        if cqe.status.phase() != self.phase {
            Some(cqe)
        } else {
            None
        }
    }

    /// Poll for a completion.  On success the head advances once; the
    /// stored phase toggles exactly when the head wraps from the last slot
    /// to slot zero.  Controller fatal status aborts the wait; so does
    /// exhausting the poll bound.
    pub fn spin_for_complete<P: Platform>(&mut self, p: &mut P, reg: &NvmeReg) -> (r: Result<
        NvmeCompletion,
        Error,
    >)
        requires
            old(self).wf(old(p)),
        ensures
            final(self).wf(final(p)),
            final(self).queue == old(self).queue,
            final(p).dma() == old(p).dma(),
            final(p).reg_writes() == old(p).reg_writes(),
            match r {
                Ok(c) => {
                    &&& ((c.status.0 & 1) > 0) != old(self).phase
                    &&& (old(self).head as int + 1 == old(self).queue.len as int) ==> (final(self).head == 0 && final(self).phase == !old(self).phase)
                    &&& (old(self).head as int + 1 < old(self).queue.len as int) ==> (final(self).head as int == old(self).head as int + 1 && final(self).phase == old(self).phase)
                },
                Err(e) => {
                    &&& *final(self) == *old(self)
                    &&& (e == Error::Fatal || e == Error::Timeout)
                },
            },
    {
        let mut polls: u64 = 0;
        while polls < POLL_BOUND
            invariant
                *self == *old(self),
                self.wf(p),
                p.dma() == old(p).dma(),
                p.reg_writes() == old(p).reg_writes(),
            decreases POLL_BOUND - polls,
        {
            let csts = p.reg_read32(REG_CSTS);
            if csts & CSTS_CFS != 0 {
                return Err(Error::Fatal);
            }
            match self.complete(p) {
                Some(e) => {
                    let next_head = self.head + 1;
                    if next_head >= (self.queue.len as u32) {
                        self.head = 0;
                        self.phase = !self.phase;
                    } else {
                        self.head = next_head;
                    }
                    return Ok(e);
                },
                None => {},
            }
            p.cpu_relax();
            polls = polls + 1;
        }
        Err(Error::Timeout)
    }

    /// The ring depth in entries.
    pub fn len(&self) -> (r: usize)
        ensures
            r == self.queue.len,
    {
        self.queue.len
    }

    /// The ring's bus address.
    pub fn bus_addr(&self) -> (r: u64)
        ensures
            r == self.queue.mem.phys,
    {
        self.queue.bus_addr()
    }
}

/// The register store that rings the submission-tail doorbell of queue
/// `qid` with `tail`.
pub open spec fn spec_sq_doorbell(reg: NvmeReg, qid: u16, tail: u32) -> RegWrite {
    RegWrite { offset: reg.spec_sq_doorbell_offset(qid), value: tail as u64 }
}

/// The register store that rings the completion-head doorbell of queue
/// `qid` with `head`.
pub open spec fn spec_cq_doorbell(reg: NvmeReg, qid: u16, head: u32) -> RegWrite {
    RegWrite { offset: reg.spec_cq_doorbell_offset(qid), value: head as u64 }
}

/// One synchronous round's pure queue-state advance: the rings and
/// identity unchanged, one fresh command id consumed, the tail once around
/// the ring, the head once around with the phase toggling exactly on the
/// wrap.
pub open spec fn spec_queue_round(q0: NvmeQueue, q1: NvmeQueue) -> bool {
    &&& q1.qid == q0.qid
    &&& q1.reg == q0.reg
    &&& q1.sq.queue == q0.sq.queue
    &&& q1.cq.queue == q0.cq.queue
    &&& q1.id_counter == (if q0.id_counter == 0xFFFF {
        0u16
    } else {
        (q0.id_counter + 1) as u16
    })
    &&& q1.sq.tail as int == (q0.sq.tail + 1) % (q0.sq.queue.len as int)
    &&& (q0.cq.head as int + 1 == q0.cq.queue.len as int) ==> (q1.cq.head == 0 && q1.cq.phase
        == !q0.cq.phase)
    &&& (q0.cq.head as int + 1 < q0.cq.queue.len as int) ==> (q1.cq.head as int == q0.cq.head
        as int + 1 && q1.cq.phase == q0.cq.phase)
}

/// One queue pair with its cached register map and per-queue command-id
/// counter.
pub struct NvmeQueue {
    pub qid: u32,
    pub sq: SubmitQueue,
    pub cq: CompleteQueue,
    pub reg: NvmeReg,
    pub id_counter: u16,
}

impl NvmeQueue {
    /// Both rings are live and disjoint, and the queue id fits the 16-bit
    /// field the command set and the doorbell array give it.
    pub open spec fn wf<P: Platform>(&self, p: &P) -> bool {
        &&& self.sq.wf(p)
        &&& self.cq.wf(p)
        &&& self.sq.queue.mem.handle != self.cq.queue.mem.handle
        &&& self.qid <= 0xFFFF
    }

    /// Allocate the two rings of a queue pair, both zeroed and page-
    /// aligned.
    pub fn new<P: Platform>(
        p: &mut P,
        qid: u32,
        reg: NvmeReg,
        page_size: usize,
        sq_len: usize,
        cq_len: usize,
    ) -> (r: Result<NvmeQueue, Error>)
        requires
            qid <= 0xFFFF,
            1 <= page_size,
            1 <= sq_len <= 0x10000,
            1 <= cq_len <= 0x10000,
        ensures
            final(p).reg_writes() == old(p).reg_writes(),
            match r {
                Ok(q) => {
                    &&& q.wf(final(p))
                    &&& q.qid == qid
                    &&& q.reg == reg
                    &&& q.id_counter == 0
                    &&& q.sq.queue.len == sq_len
                    &&& q.sq.tail == 0
                    &&& q.cq.queue.len == cq_len
                    &&& q.cq.head == 0
                    &&& q.cq.phase == false
                    &&& q.sq.queue.mem.phys % (page_size as u64) == 0
                    &&& q.cq.queue.mem.phys % (page_size as u64) == 0
                    &&& !old(p).dma().contains_key(q.sq.queue.mem.handle)
                    &&& !old(p).dma().contains_key(q.cq.queue.mem.handle)
                    &&& q.sq.queue.mem.handle != q.cq.queue.mem.handle
                    &&& final(p).dma() == old(p).dma().insert(
                        q.sq.queue.mem.handle,
                        zero_bytes(q.sq.queue.mem.size as nat),
                    ).insert(q.cq.queue.mem.handle, zero_bytes(q.cq.queue.mem.size as nat))
                    &&& old(p).dma().submap_of(final(p).dma())
                },
                Err(e) => final(p).dma() == old(p).dma() && e == Error::NoMemory,
            },
    {
        let sq = match SubmitQueue::new(p, sq_len, page_size) {
            Ok(s) => s,
            Err(_) => {
                return Err(Error::NoMemory);
            },
        };
        match CompleteQueue::new(p, cq_len, page_size) {
            Ok(cq) => {
                proof {
                    assert(old(p).dma().submap_of(p.dma()));
                }
                Ok(NvmeQueue { qid, sq, cq, reg, id_counter: 0 })
            },
            Err(_) => {
                sq.queue.free(p);
                proof {
                    assert(p.dma() =~= old(p).dma());
                }
                Err(Error::NoMemory)
            },
        }
    }

    /// Hand out the next command identifier, wrapping from `0xFFFF` back
    /// to zero.
    pub fn next_id(&mut self) -> (r: u16)
        ensures
            r == old(self).id_counter,
            final(self).id_counter == (if old(self).id_counter == 0xFFFF {
                0u16
            } else {
                (old(self).id_counter + 1) as u16
            }),
            final(self).qid == old(self).qid,
            final(self).sq == old(self).sq,
            final(self).cq == old(self).cq,
            final(self).reg == old(self).reg,
    {
        let id = self.id_counter;
        if id == 0xFFFF {
            self.id_counter = 0;
        } else {
            self.id_counter = id + 1;
        }
        id
    }

    /// The effect of one completed `command_sync` round: the entry —
    /// stamped with the queue's current command id — stands in the
    /// submission ring at the old tail; the tail advanced once modulo the
    /// depth; the completion head advanced once, its phase toggling exactly
    /// on the wrap from the last slot to zero; and the two doorbells were
    /// rung in order, submission tail first, completion head second.
    pub open spec fn spec_completed_round<P: Platform>(
        self,
        newq: NvmeQueue,
        oldp: P,
        newp: P,
        data: CommandSet,
    ) -> bool {
        let entry = data.spec_with_command_id(self.id_counter);
        &&& newq.id_counter == (if self.id_counter == 0xFFFF {
            0u16
        } else {
            (self.id_counter + 1) as u16
        })
        &&& newq.sq.tail as int == (self.sq.tail + 1) % (self.sq.queue.len as int)
        &&& newp.dma() == oldp.dma().insert(
            self.sq.queue.mem.handle,
            splice_bytes(
                oldp.dma()[self.sq.queue.mem.handle],
                (self.sq.tail as int) * 64,
                entry.spec_bytes(),
            ),
        )
        &&& (self.cq.head as int + 1 == self.cq.queue.len as int) ==> (newq.cq.head == 0
            && newq.cq.phase == !self.cq.phase)
        &&& (self.cq.head as int + 1 < self.cq.queue.len as int) ==> (newq.cq.head as int
            == self.cq.head as int + 1 && newq.cq.phase == self.cq.phase)
        &&& newp.reg_writes() == oldp.reg_writes().push(
            RegWrite {
                offset: self.reg.spec_sq_doorbell_offset(self.qid as u16),
                value: newq.sq.tail as u64,
            },
        ).push(
            RegWrite {
                offset: self.reg.spec_cq_doorbell_offset(self.qid as u16),
                value: newq.cq.head as u64,
            },
        )
    }

    /// The effect of a round that submitted but was never answered: the
    /// entry stands in the ring, the tail advanced and its doorbell was
    /// rung, but the completion side never moved.
    pub open spec fn spec_submitted_round<P: Platform>(
        self,
        newq: NvmeQueue,
        oldp: P,
        newp: P,
        data: CommandSet,
    ) -> bool {
        let entry = data.spec_with_command_id(self.id_counter);
        &&& newq.id_counter == (if self.id_counter == 0xFFFF {
            0u16
        } else {
            (self.id_counter + 1) as u16
        })
        &&& newq.sq.tail as int == (self.sq.tail + 1) % (self.sq.queue.len as int)
        &&& newq.cq == self.cq
        &&& newp.dma() == oldp.dma().insert(
            self.sq.queue.mem.handle,
            splice_bytes(
                oldp.dma()[self.sq.queue.mem.handle],
                (self.sq.tail as int) * 64,
                entry.spec_bytes(),
            ),
        )
        &&& newp.reg_writes() == oldp.reg_writes().push(
            RegWrite {
                offset: self.reg.spec_sq_doorbell_offset(self.qid as u16),
                value: newq.sq.tail as u64,
            },
        )
    }

    /// Submit one command and spin for its completion.
    ///
    /// A fresh command identifier is stamped into CDW0 bits 31:16; the
    /// entry bytes are flushed before the tail doorbell rings; the
    /// completion is detected by its phase bit; and the head doorbell is
    /// rung before the status is judged, so it is updated also when the
    /// completion carries an error status, which is surfaced as a device
    /// error with the raw status word.
    pub fn command_sync<P: Platform>(&mut self, p: &mut P, data: CommandSet) -> (r: Result<
        NvmeCompletion,
        Error,
    >)
        requires
            old(self).wf(old(p)),
        ensures
            final(self).wf(final(p)),
            final(self).qid == old(self).qid,
            final(self).reg == old(self).reg,
            final(self).sq.queue == old(self).sq.queue,
            final(self).cq.queue == old(self).cq.queue,
            forall|h: u64| #[trigger]
                old(p).dma().contains_key(h) ==> final(p).dma().contains_key(h) && final(p).dma()[h].len() == old(p).dma()[h].len(),
            match r {
                Ok(c) => {
                    &&& old(self).spec_completed_round(*final(self), *old(p), *final(p), data)
                    &&& (c.status.0 >> 1) == 0
                },
                Err(e) => match e {
                    Error::Device(w) => {
                        &&& old(self).spec_completed_round(*final(self), *old(p), *final(p), data)
                        &&& (w >> 1) != 0
                    },
                    Error::Fatal | Error::Timeout => {
                        ||| (*final(self) == *old(self) && final(p).dma() == old(p).dma() && final(p).reg_writes() == old(p).reg_writes())
                        ||| old(self).spec_submitted_round(*final(self), *old(p), *final(p), data)
                    },
                    _ => false,
                },
            },
    {
        let csts = p.reg_read32(REG_CSTS);
        if csts & CSTS_CFS != 0 {
            return Err(Error::Fatal);
        }
        let id = self.next_id();
        let cmd = data.with_command_id(id);
        let tail = self.sq.submit(p, cmd);
        self.reg.write_sq_y_tail_doolbell(p, self.qid as u16, tail);
        let comp = match self.cq.spin_for_complete(p, &self.reg) {
            Ok(c) => c,
            Err(e) => {
                return Err(e);
            },
        };
        self.reg.write_cq_y_head_doolbell(p, self.qid as u16, self.cq.head);
        if comp.status.is_success() {
            Ok(comp)
        } else {
            Err(Error::Device(comp.status.0))
        }
    }
}

/// A queue pair stays well formed when the shadow map only grows.
pub proof fn lemma_queue_wf_after_submap<P: Platform>(q: NvmeQueue, p1: P, p2: P)
    requires
        q.wf(&p1),
        p1.dma().submap_of(p2.dma()),
    ensures
        q.wf(&p2),
{
}

/// A queue pair stays well formed when a region that is not one of its
/// rings is released.
pub proof fn lemma_queue_wf_after_remove_other<P: Platform>(q: NvmeQueue, p1: P, p2: P, h: u64)
    requires
        q.wf(&p1),
        p2.dma() == p1.dma().remove(h),
        h != q.sq.queue.mem.handle,
        h != q.cq.queue.mem.handle,
    ensures
        q.wf(&p2),
{
}

/// A queue pair stays well formed across any platform step that keeps
/// every live region live at its length.
pub proof fn lemma_queue_wf_after_shape_preserving<P: Platform>(q: NvmeQueue, p1: P, p2: P)
    requires
        q.wf(&p1),
        forall|h: u64| #[trigger]
            p1.dma().contains_key(h) ==> p2.dma().contains_key(h) && p2.dma()[h].len()
                == p1.dma()[h].len(),
    ensures
        q.wf(&p2),
{
}

/// The tail index after `k` submissions into a fresh ring of depth `d`:
/// each submission advances the tail once modulo the depth.
pub open spec fn spec_tail_after(k: nat, d: int) -> int
    recommends
        1 <= d,
    decreases k,
{
    if k == 0 {
        0
    } else {
        (spec_tail_after((k - 1) as nat, d) + 1) % d
    }
}

/// For a ring of depth `d`, after `k` submissions the tail stands at
/// `k % d`.
pub proof fn lemma_tail_after_k_submissions(k: nat, d: int)
    requires
        1 <= d,
    ensures
        spec_tail_after(k, d) == k as int % d,
    decreases k,
{
    if k == 0 {
    } else {
        lemma_tail_after_k_submissions((k - 1) as nat, d);
        if d == 1 {
            vstd::arithmetic::div_mod::lemma_mod_self_0(d);
            vstd::arithmetic::div_mod::lemma_add_mod_noop((k - 1) as int, 1, d);
        } else {
            vstd::arithmetic::div_mod::lemma_small_mod(1, d as nat);
            vstd::arithmetic::div_mod::lemma_add_mod_noop((k - 1) as int, 1, d);
        }
    }
}

} // verus!
