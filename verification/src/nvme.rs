//! The controller: bring-up, namespace enumeration, and block I/O.

use vstd::prelude::*;

use crate::command::{
    ControllerInfo, Feature, Identify, IdentifyActiveNamespaceList, IdentifyController,
    IdentifyNamespaceDataStructure, NamespaceDataStructure,
};
use crate::command::spec_active_list;
use crate::dma::DMAVec;
use crate::err::Error;
use crate::platform::{Direction, Platform};
use crate::DMAMem;
use crate::platform::RegWrite;
use crate::queue::{
    lemma_queue_wf_after_remove_other, lemma_queue_wf_after_submap, spec_cq_doorbell,
    spec_queue_round, spec_sq_doorbell, CommandSet, NvmeQueue,
};
use crate::registers::{NvmeReg, QUEUE_BASE_MASK, REG_ACQ, REG_AQA, REG_ASQ, REG_CC};
use vstd::arithmetic::power2::pow2;

verus! {

/// What the embedding system chooses at construction.
#[derive(Debug, Clone, Copy, PartialEq, Eq, Structural)]
pub struct Config {
    /// Host memory page size: sets MPS and the alignment of every data
    /// buffer handed to the device.  Must be a power of two between 4 KiB
    /// and 128 MiB.
    pub page_size: usize,
    /// Desired number of I/O queue pairs, at least one; the controller may
    /// grant fewer.
    pub io_queue_pair_count: usize,
}

/// One namespace as the controller reports it.
#[derive(Debug, Clone, Copy, PartialEq, Eq, Structural)]
pub struct Namespace {
    pub id: u32,
    /// Bytes per logical block.
    pub lba_size: usize,
    /// Logical blocks in the namespace.
    pub lba_count: usize,
    /// Metadata bytes per block.
    pub metadata_size: usize,
}

/// The namespace descriptor derived from one identify-namespace response.
pub open spec fn spec_namespace_from(id: u32, nsd: NamespaceDataStructure) -> Namespace {
    Namespace {
        id,
        lba_size: nsd.lba_size as usize,
        lba_count: nsd.namespace_size as usize,
        metadata_size: nsd.metadata_size as usize,
    }
}

/// There is a well-sized identify response that `out` is the reading of.
pub open spec fn spec_parse_evidence<T: Identify>(out: T::Output) -> bool {
    exists|data: Seq<u8>| data.len() == 4096 && #[trigger] T::parse_post(data, out)
}

/// `pow2(m + 12)`: the page size an MPS field of `m` stands for.
pub open spec fn spec_mps_page_size(m: nat) -> nat {
    pow2(m + 12)
}

/// The five configuration stores of one admin bring-up pass, in order:
/// disable, the zero-based ring depths to AQA, the two ring bus addresses
/// to ASQ and ACQ — all while the controller is down — and finally the
/// enabling CC value.
pub open spec fn spec_bringup_stores(q: NvmeQueue, mps: u32, sqes: u32, cqes: u32) -> Seq<
    RegWrite,
> {
    seq![
        RegWrite { offset: REG_CC, value: 0 },
        RegWrite {
            offset: REG_AQA,
            value: NvmeReg::spec_aqa(q.sq.queue.len, q.cq.queue.len) as u64,
        },
        RegWrite { offset: REG_ASQ, value: (q.sq.queue.mem.phys & QUEUE_BASE_MASK) as u64 },
        RegWrite { offset: REG_ACQ, value: (q.cq.queue.mem.phys & QUEUE_BASE_MASK) as u64 },
        RegWrite { offset: REG_CC, value: NvmeReg::spec_cc_value(mps, sqes, cqes) as u64 },
    ]
}

/// Every store in `s` rings one of the admin queue's two doorbells: no
/// configuration register is touched.
pub open spec fn spec_only_admin_doorbells(s: Seq<RegWrite>, reg: NvmeReg) -> bool {
    forall|k: int|
        0 <= k < s.len() ==> ((#[trigger] s[k]).offset == reg.spec_sq_doorbell_offset(0)
            || s[k].offset == reg.spec_cq_doorbell_offset(0))
}

/// `n` zero bytes, for wiping a ring.
fn zero_vec(n: usize) -> (r: Vec<u8>)
    ensures
        r@.len() == n,
        r@ == crate::platform::zero_bytes(n as nat),
{
    let mut v: Vec<u8> = Vec::new();
    while v.len() < n
        invariant
            v@.len() <= n,
            forall|i: int| 0 <= i < v@.len() ==> v@[i] == 0u8,
        decreases n - v@.len(),
    {
        v.push(0u8);
    }
    proof {
        assert(v@ =~= crate::platform::zero_bytes(n as nat));
    }
    v
}

/// The controller handle: the platform port, the cached register map, the
/// admin queue pair, and the I/O queue pairs.
pub struct Nvme<P: Platform> {
    pub platform: P,
    pub reg: NvmeReg,
    pub admin_queue: NvmeQueue,
    pub io_queues: Vec<NvmeQueue>,
    pub num_ns: usize,
    pub sqes: u32,
    pub cqes: u32,
    pub page_size: usize,
}

impl<P: Platform> Nvme<P> {
    /// The admin queue pair is live on the platform and sized for the
    /// 12-bit AQA fields, the page size is a supported one, and the chosen
    /// entry-size exponents fit their 4-bit CC fields.
    pub open spec fn admin_wf(&self) -> bool {
        &&& self.admin_queue.wf(&self.platform)
        &&& self.admin_queue.qid == 0
        &&& self.admin_queue.reg == self.reg
        &&& self.admin_queue.sq.queue.len <= 0x1000
        &&& self.admin_queue.cq.queue.len <= 0x1000
        &&& 4096 <= self.page_size <= 0x8000000
        &&& self.sqes <= 0xF
        &&& self.cqes <= 0xF
    }

    /// A fully operational controller: the admin queue and at least one
    /// I/O queue pair, all live on the platform.
    pub open spec fn wf(&self) -> bool {
        &&& self.admin_wf()
        &&& self.io_queues@.len() >= 1
        &&& forall|i: int|
            0 <= i < self.io_queues@.len() ==> (#[trigger] self.io_queues@[i]).wf(&self.platform)
    }

    /// The MPS field for a host page size — `log2(page_size) - 12` — when
    /// the page size is a supported power of two.
    pub fn mps_for_page_size(page_size: usize) -> (r: Option<u32>)
        ensures
            match r {
                Some(m) => {
                    &&& m <= 0xF
                    &&& page_size == spec_mps_page_size(m as nat)
                    &&& 4096 <= page_size <= 0x8000000
                },
                None => forall|j: nat| j <= 0xF ==> page_size != #[trigger] spec_mps_page_size(j),
            },
    {
        let mut m: u32 = 0;
        while m <= 0xF
            invariant
                m <= 0x10,
                forall|j: nat| j < m ==> page_size != #[trigger] spec_mps_page_size(j),
            decreases 0x10 - m,
        {
            proof {
                vstd::arithmetic::power2::lemma2_to64();
                vstd::bits::lemma_usize_shl_is_mul(1, (m + 12) as usize);
                if m + 12 < 27 {
                    vstd::arithmetic::power2::lemma_pow2_strictly_increases(
                        (m + 12) as nat,
                        27,
                    );
                }
                if 12 < m + 12 {
                    vstd::arithmetic::power2::lemma_pow2_strictly_increases(
                        12,
                        (m + 12) as nat,
                    );
                }
            }
            let candidate: usize = 1usize << ((m + 12) as usize);
            if candidate == page_size {
                return Some(m);
            }
            m = m + 1;
        }
        None
    }

    /// Bring the controller up: reset, configure and enable the admin
    /// queue, identify the controller, adopt its required entry sizes, and
    /// create the I/O queue pairs.  A zero queue count or an unsupported
    /// page size is rejected as an invalid argument before the device is
    /// touched.
    /// What a brought-up controller looks like, relative to the platform
    /// it was built on: well formed; admin rings of the clamped depth; the
    /// entry-size exponents and namespace count adopted from one identify-
    /// controller response; the I/O pair count the grant allowed, pairs
    /// numbered one upward at the chosen depth; and a register log that
    /// begins with configuration strictly before the enabling CC store.
    pub open spec fn spec_brought_up(pre: P, nvme: Nvme<P>, config: Config) -> bool {
        &&& nvme.wf()
        &&& nvme.page_size == config.page_size
        &&& nvme.admin_queue.sq.queue.len == Self::spec_admin_depth(nvme.reg)
        &&& nvme.admin_queue.cq.queue.len == Self::spec_admin_depth(nvme.reg)
        &&& exists|data: Seq<u8>|
            {
                &&& data.len() == 4096
                &&& nvme.sqes == (#[trigger] crate::command::spec_controller_info(data).sqes_min
                    & 0xF) as u32
                &&& nvme.cqes == (crate::command::spec_controller_info(data).cqes_min & 0xF) as u32
                &&& nvme.num_ns == crate::command::spec_controller_info(
                    data,
                ).number_of_namespaces as usize
            }
        &&& exists|dw0: u32|
            nvme.io_queues@.len() == #[trigger] Self::spec_granted_pairs(
                config.io_queue_pair_count,
                dw0,
            )
        &&& forall|j: int|
            0 <= j < nvme.io_queues@.len() ==> {
                let q = #[trigger] nvme.io_queues@[j];
                &&& q.qid == j + 1
                &&& q.sq.queue.len == Self::spec_io_depth(nvme.sqes, nvme.reg)
                &&& q.cq.queue.len == Self::spec_io_depth(nvme.sqes, nvme.reg)
            }
        &&& exists|m: u32, rest: Seq<RegWrite>| #[trigger]
            Self::spec_configured_before_enabled(pre, nvme, config, m, rest)
        &&& exists|a_cfg: NvmeQueue, p_cfg: P|
            {
                &&& a_cfg.qid == 0
                &&& a_cfg.reg == nvme.reg
                &&& #[trigger] Self::spec_io_session(
                    a_cfg,
                    p_cfg,
                    nvme.admin_queue,
                    nvme.platform,
                    nvme.io_queues@,
                    config.io_queue_pair_count,
                    Self::spec_io_depth(nvme.sqes, nvme.reg),
                )
            }
    }

    #[verifier::spinoff_prover]
    #[verifier::rlimit(100)]
    pub fn new(platform: P, config: Config) -> (r: Result<Nvme<P>, Error>)
        ensures
            r is Err && r->Err_0 == Error::InvalidArgument <==> (config.io_queue_pair_count == 0
                || config.io_queue_pair_count > 0xFFFF || (forall|m: nat|
                m <= 0xF ==> config.page_size != #[trigger] spec_mps_page_size(m))),
            r matches Ok(nvme) ==> Self::spec_brought_up(platform, nvme, config),
    {
        if config.io_queue_pair_count == 0 || config.io_queue_pair_count > 0xFFFF {
            return Err(Error::InvalidArgument);
        }
        let mps = match Self::mps_for_page_size(config.page_size) {
            Some(m) => m,
            None => {
                return Err(Error::InvalidArgument);
            },
        };
        let mut p = platform;
        let reg = NvmeReg::new(&mut p);
        let mqes = reg.mqes();
        let mut admin_depth: usize = 64;
        if (mqes as usize) + 1 < admin_depth {
            admin_depth = (mqes as usize) + 1;
        }
        let admin_queue = match NvmeQueue::new(
            &mut p,
            0,
            reg,
            config.page_size,
            admin_depth,
            admin_depth,
        ) {
            Ok(q) => q,
            Err(e) => {
                return Err(e);
            },
        };
        let mut s = Nvme {
            platform: p,
            reg,
            admin_queue,
            io_queues: Vec::new(),
            num_ns: 0,
            sqes: 6,
            cqes: 4,
            page_size: config.page_size,
        };
        let ghost s0 = s;
        match s.init(config, mps) {
            Ok(_) => {
                proof {
                    let (mid, dbs) = choose|mid: Seq<RegWrite>, dbs: Seq<RegWrite>| #[trigger]
                        Self::spec_bringup_log(s0, s, mps, mid, dbs);
                    let rest = if s.sqes == 6 && s.cqes == 4 {
                        mid + dbs
                    } else {
                        mid + spec_bringup_stores(s0.admin_queue, mps, s.sqes, s.cqes) + dbs
                    };
                    assert(s.platform.reg_writes() =~= platform.reg_writes()
                        + spec_bringup_stores(s.admin_queue, mps, 6, 4) + rest);
                    assert(Self::spec_configured_before_enabled(platform, s, config, mps, rest));
                    let (mid2, a_cfg, p_cfg) = choose|
                        mid2: Seq<RegWrite>,
                        a_cfg: NvmeQueue,
                        p_cfg: P,
                    | #[trigger] Self::spec_init_io_session(s0, s, config, mps, mid2, a_cfg, p_cfg);
                    assert(Self::spec_io_session(
                        a_cfg,
                        p_cfg,
                        s.admin_queue,
                        s.platform,
                        s.io_queues@,
                        config.io_queue_pair_count,
                        Self::spec_io_depth(s.sqes, s.reg),
                    ));
                    assert(Self::spec_brought_up(platform, s, config));
                }
                Ok(s)
            },
            Err(e) => Err(e),
        }
    }

    /// The controller was configured strictly before it was enabled: the
    /// register log of the brought-up controller begins — right after
    /// whatever the port had logged before — with the five bring-up stores
    /// (disable, AQA, ASQ, ACQ, then the enabling CC value with the MPS for
    /// the configured page size and the initial entry sizes), and `rest` is
    /// everything the rest of the bring-up appended.
    pub open spec fn spec_configured_before_enabled(
        pre: P,
        nvme: Nvme<P>,
        config: Config,
        m: u32,
        rest: Seq<RegWrite>,
    ) -> bool {
        &&& m <= 0xF
        &&& config.page_size == spec_mps_page_size(m as nat)
        &&& nvme.platform.reg_writes() == pre.reg_writes() + spec_bringup_stores(
            nvme.admin_queue,
            m,
            6,
            4,
        ) + rest
    }

    /// The I/O configuration session as `init` hands it on: the platform
    /// state `p_cfg` at which configuration began is pinned by its register
    /// log — the bring-up blocks and the identify doorbells, nothing else —
    /// and from `(a_cfg, p_cfg)` the Set Features round and the
    /// pair-creation chain run to the final state.
    pub open spec fn spec_init_io_session(
        pre: Nvme<P>,
        post: Nvme<P>,
        config: Config,
        mps: u32,
        mid: Seq<RegWrite>,
        a_cfg: NvmeQueue,
        p_cfg: P,
    ) -> bool {
        &&& mid.len() == 2
        &&& spec_only_admin_doorbells(mid, pre.reg)
        &&& a_cfg.qid == 0
        &&& a_cfg.reg == pre.reg
        &&& p_cfg.reg_writes() == pre.platform.reg_writes() + spec_bringup_stores(
            pre.admin_queue,
            mps,
            6,
            4,
        ) + mid + (if post.sqes == 6 && post.cqes == 4 {
            Seq::<RegWrite>::empty()
        } else {
            spec_bringup_stores(pre.admin_queue, mps, post.sqes, post.cqes)
        })
        &&& Self::spec_io_session(
            a_cfg,
            p_cfg,
            post.admin_queue,
            post.platform,
            post.io_queues@,
            config.io_queue_pair_count,
            Self::spec_io_depth(post.sqes, pre.reg),
        )
    }

    /// The register-log story of one full bring-up, from `pre` to `post`:
    /// one bring-up block with the initial entry-size exponents, the
    /// identify round's two admin doorbells (`mid`), a second bring-up
    /// block with the adopted exponents exactly when they differ from the
    /// initial pair, and admin doorbells (`dbs`) for everything after.
    pub open spec fn spec_bringup_log(
        pre: Nvme<P>,
        post: Nvme<P>,
        mps: u32,
        mid: Seq<RegWrite>,
        dbs: Seq<RegWrite>,
    ) -> bool {
        &&& mid.len() == 2
        &&& spec_only_admin_doorbells(mid, pre.reg)
        &&& spec_only_admin_doorbells(dbs, pre.reg)
        &&& if post.sqes == 6 && post.cqes == 4 {
            post.platform.reg_writes() == pre.platform.reg_writes() + spec_bringup_stores(
                pre.admin_queue,
                mps,
                6,
                4,
            ) + mid + dbs
        } else {
            post.platform.reg_writes() == pre.platform.reg_writes() + spec_bringup_stores(
                pre.admin_queue,
                mps,
                6,
                4,
            ) + mid + spec_bringup_stores(pre.admin_queue, mps, post.sqes, post.cqes) + dbs
        }
    }

    /// The bring-up state machine after construction of the admin queue:
    /// reset and enable with the initial entry sizes, identify, then — only
    /// when the controller's required minima differ from the initial pair —
    /// exactly one disable/reconfigure/re-enable cycle, and finally the I/O
    /// queues.  The register log tells the story: one bring-up block, the
    /// identify round's two doorbells, a second bring-up block exactly when
    /// the adopted entry sizes differ from the initial ones, and admin
    /// doorbells for everything after.
    fn init(&mut self, config: Config, mps: u32) -> (r: Result<(), Error>)
        requires
            old(self).admin_wf(),
            old(self).io_queues@.len() == 0,
            old(self).sqes == 6,
            old(self).cqes == 4,
            mps <= 0xF,
            1 <= config.io_queue_pair_count <= 0xFFFF,
        ensures
            final(self).reg == old(self).reg,
            final(self).page_size == old(self).page_size,
            final(self).admin_queue.sq.queue == old(self).admin_queue.sq.queue,
            final(self).admin_queue.cq.queue == old(self).admin_queue.cq.queue,
            r is Ok ==> final(self).wf(),
            r is Ok ==> exists|data: Seq<u8>|
                {
                    &&& data.len() == 4096
                    &&& final(self).sqes == (#[trigger] crate::command::spec_controller_info(
                        data,
                    ).sqes_min & 0xF) as u32
                    &&& final(self).cqes == (crate::command::spec_controller_info(data).cqes_min
                        & 0xF) as u32
                    &&& final(self).num_ns == crate::command::spec_controller_info(
                        data,
                    ).number_of_namespaces as usize
                },
            r is Ok ==> exists|dw0: u32|
                final(self).io_queues@.len() == #[trigger] Self::spec_granted_pairs(
                    config.io_queue_pair_count,
                    dw0,
                ),
            r is Ok ==> forall|j: int|
                0 <= j < final(self).io_queues@.len() ==> {
                    let q = #[trigger] final(self).io_queues@[j];
                    &&& q.qid == j + 1
                    &&& q.sq.queue.len == Self::spec_io_depth(final(self).sqes, old(self).reg)
                    &&& q.cq.queue.len == Self::spec_io_depth(final(self).sqes, old(self).reg)
                    &&& q.sq.tail == 0
                    &&& q.cq.head == 0
                    &&& q.cq.phase == false
                },
            r is Ok ==> exists|mid: Seq<RegWrite>, dbs: Seq<RegWrite>| #[trigger]
                Self::spec_bringup_log(*old(self), *final(self), mps, mid, dbs),
            r is Ok ==> exists|mid: Seq<RegWrite>, a_cfg: NvmeQueue, p_cfg: P| #[trigger]
                Self::spec_init_io_session(*old(self), *final(self), config, mps, mid, a_cfg, p_cfg),
            r matches Err(e) ==> e != Error::InvalidArgument && e != Error::Layout,
    {
        let controller = match self.reset_and_setup_controller_info(mps) {
            Ok(c) => c,
            Err(e) => {
                return Err(e);
            },
        };
        let ghost mid = choose|m: Seq<RegWrite>|
            m.len() == 2 && spec_only_admin_doorbells(m, old(self).reg)
                && self.platform.reg_writes() == old(self).platform.reg_writes()
                + spec_bringup_stores(old(self).admin_queue, mps, 6, 4) + m;
        let new_sqes = controller.sqes_min & 0x0F;
        let new_cqes = controller.cqes_min & 0x0F;
        proof {
            let a = controller.sqes_min;
            let b = controller.cqes_min;
            assert((a & 0x0F) <= 0xF && (b & 0x0F) <= 0xF) by (bit_vector);
        }
        self.sqes = new_sqes as u32;
        self.cqes = new_cqes as u32;
        if !(new_sqes == 6 && new_cqes == 4) {
            match self.reset() {
                Ok(_) => {},
                Err(e) => {
                    return Err(e);
                },
            }
            self.nvme_configure_admin_queue();
            match self.enable(mps) {
                Ok(_) => {},
                Err(e) => {
                    return Err(e);
                },
            }
            proof {
                assert(self.platform.reg_writes() =~= old(self).platform.reg_writes()
                    + spec_bringup_stores(old(self).admin_queue, mps, 6, 4) + mid
                    + spec_bringup_stores(
                    old(self).admin_queue,
                    mps,
                    self.sqes,
                    self.cqes,
                ));
            }
        }
        self.num_ns = controller.number_of_namespaces as usize;
        let ghost a_cfg = self.admin_queue;
        let ghost p_cfg = self.platform;
        let cr = self.config_io_queue(config);
        proof {
            match cr {
                Ok(_) => {
                    let dbs = choose|d: Seq<RegWrite>|
                        spec_only_admin_doorbells(d, old(self).reg)
                            && self.platform.reg_writes() == p_cfg.reg_writes() + d;
                    if self.sqes == 6 && self.cqes == 4 {
                        assert(self.platform.reg_writes() =~= old(self).platform.reg_writes()
                            + spec_bringup_stores(old(self).admin_queue, mps, 6, 4) + mid + dbs);
                    } else {
                        assert(self.platform.reg_writes() =~= old(self).platform.reg_writes()
                            + spec_bringup_stores(old(self).admin_queue, mps, 6, 4) + mid
                            + spec_bringup_stores(
                            old(self).admin_queue,
                            mps,
                            self.sqes,
                            self.cqes,
                        ) + dbs);
                    }
                    assert(Self::spec_bringup_log(*old(self), *self, mps, mid, dbs));
                    if self.sqes == 6 && self.cqes == 4 {
                        assert(p_cfg.reg_writes() =~= old(self).platform.reg_writes()
                            + spec_bringup_stores(old(self).admin_queue, mps, 6, 4) + mid
                            + Seq::<RegWrite>::empty());
                    }
                    assert(Self::spec_init_io_session(
                        *old(self),
                        *self,
                        config,
                        mps,
                        mid,
                        a_cfg,
                        p_cfg,
                    ));
                },
                Err(_) => {},
            }
        }
        cr
    }

    /// Reset, configure the admin queue registers, enable, and identify
    /// the controller.  On success the register log grew by exactly the
    /// five bring-up stores — configuration strictly before the enabling
    /// CC store — followed by the identify round's two admin doorbells.
    fn reset_and_setup_controller_info(&mut self, mps: u32) -> (r: Result<ControllerInfo, Error>)
        requires
            old(self).admin_wf(),
            mps <= 0xF,
        ensures
            final(self).admin_wf(),
            final(self).io_queues == old(self).io_queues,
            final(self).sqes == old(self).sqes,
            final(self).cqes == old(self).cqes,
            final(self).page_size == old(self).page_size,
            final(self).reg == old(self).reg,
            final(self).admin_queue.sq.queue == old(self).admin_queue.sq.queue,
            final(self).admin_queue.cq.queue == old(self).admin_queue.cq.queue,
            final(self).admin_queue.qid == old(self).admin_queue.qid,
            match r {
                Ok(c) => {
                    &&& spec_parse_evidence::<IdentifyController>(c)
                    &&& exists|mid: Seq<RegWrite>|
                        mid.len() == 2 && spec_only_admin_doorbells(mid, old(self).reg) && final(self).platform.reg_writes() == old(self).platform.reg_writes()
                            + spec_bringup_stores(
                            old(self).admin_queue,
                            mps,
                            old(self).sqes,
                            old(self).cqes,
                        ) + mid
                },
                Err(e) => e != Error::InvalidArgument && e != Error::Layout,
            },
    {
        match self.reset() {
            Ok(_) => {},
            Err(e) => {
                return Err(e);
            },
        }
        self.nvme_configure_admin_queue();
        let ghost p_enabled = self.platform;
        match self.enable(mps) {
            Ok(_) => {},
            Err(e) => {
                return Err(e);
            },
        }
        let ghost p_cfg = self.platform;
        let r = self.get_identfy(IdentifyController::new());
        proof {
            match r {
                Ok(_) => {
                    let q1 = self.admin_queue;
                    let mid = seq![
                        spec_sq_doorbell(old(self).reg, 0, q1.sq.tail),
                        spec_cq_doorbell(old(self).reg, 0, q1.cq.head),
                    ];
                    assert(spec_only_admin_doorbells(mid, old(self).reg));
                    assert(self.platform.reg_writes() =~= old(self).platform.reg_writes()
                        + spec_bringup_stores(
                        old(self).admin_queue,
                        mps,
                        old(self).sqes,
                        old(self).cqes,
                    ) + mid);
                },
                Err(_) => {},
            }
        }
        r
    }

    /// Clear CC.EN, wait for ready to drop within the `CAP.TO` budget, and
    /// clear the driver's half of the admin queue state: both rings are
    /// zeroed again and tail, head and phase return to their initial
    /// values, so that the controller and the driver restart in step.
    fn reset(&mut self) -> (r: Result<(), Error>)
        requires
            old(self).admin_wf(),
        ensures
            final(self).admin_wf(),
            final(self).admin_queue.sq.queue == old(self).admin_queue.sq.queue,
            final(self).admin_queue.cq.queue == old(self).admin_queue.cq.queue,
            final(self).admin_queue.qid == old(self).admin_queue.qid,
            final(self).admin_queue.reg == old(self).admin_queue.reg,
            final(self).io_queues == old(self).io_queues,
            final(self).sqes == old(self).sqes,
            final(self).cqes == old(self).cqes,
            final(self).page_size == old(self).page_size,
            final(self).reg == old(self).reg,
            final(self).num_ns == old(self).num_ns,
            r is Ok ==> final(self).admin_queue.sq.tail == 0 && final(self).admin_queue.cq.head
                == 0 && final(self).admin_queue.cq.phase == false,
            r is Ok ==> final(self).platform.dma() == old(self).platform.dma().insert(
                old(self).admin_queue.sq.queue.mem.handle,
                crate::platform::zero_bytes(old(self).admin_queue.sq.queue.mem.size as nat),
            ).insert(
                old(self).admin_queue.cq.queue.mem.handle,
                crate::platform::zero_bytes(old(self).admin_queue.cq.queue.mem.size as nat),
            ),
            final(self).platform.reg_writes() == old(self).platform.reg_writes().push(
                RegWrite { offset: REG_CC, value: 0 },
            ),
            r is Err ==> (r == Err::<(), Error>(Error::Timeout) || r == Err::<(), Error>(
                Error::Fatal,
            )),
            forall|h: u64| #[trigger]
                old(self).platform.dma().contains_key(h) ==> final(self).platform.dma().contains_key(h) && final(self).platform.dma()[h].len() == old(self).platform.dma()[h].len(),
    {
        let reg = self.reg;
        match reg.reset(&mut self.platform) {
            Ok(_) => {},
            Err(e) => {
                return Err(e);
            },
        }
        let ghost p1 = self.platform;
        let sq_zeros = zero_vec(self.admin_queue.sq.queue.mem.size);
        self.platform.dma_write(&self.admin_queue.sq.queue.mem, 0, sq_zeros.as_slice());
        proof {
            crate::platform::lemma_splice_bytes_len(
                p1.dma()[self.admin_queue.sq.queue.mem.handle],
                0,
                sq_zeros@,
            );
        }
        let ghost p2 = self.platform;
        let cq_zeros = zero_vec(self.admin_queue.cq.queue.mem.size);
        self.platform.dma_write(&self.admin_queue.cq.queue.mem, 0, cq_zeros.as_slice());
        proof {
            crate::platform::lemma_splice_bytes_len(
                p2.dma()[self.admin_queue.cq.queue.mem.handle],
                0,
                cq_zeros@,
            );
        }
        self.platform.flush_for_device(
            &self.admin_queue.sq.queue.mem,
            0,
            self.admin_queue.sq.queue.mem.size,
        );
        self.platform.flush_for_device(
            &self.admin_queue.cq.queue.mem,
            0,
            self.admin_queue.cq.queue.mem.size,
        );
        self.admin_queue.sq.tail = 0;
        self.admin_queue.cq.head = 0;
        self.admin_queue.cq.phase = false;
        proof {
            let sqh = self.admin_queue.sq.queue.mem.handle;
            let cqh = self.admin_queue.cq.queue.mem.handle;
            assert(crate::platform::splice_bytes(
                old(self).platform.dma()[sqh],
                0,
                sq_zeros@,
            ) =~= sq_zeros@);
            assert(crate::platform::splice_bytes(p2.dma()[cqh], 0, cq_zeros@) =~= cq_zeros@);
            assert(self.platform.dma() =~= old(self).platform.dma().insert(
                sqh,
                sq_zeros@,
            ).insert(cqh, cq_zeros@));
        }
        Ok(())
    }

    /// Write CC with enable, the page size, and the chosen entry-size
    /// exponents, then wait for ready.
    fn enable(&mut self, mps: u32) -> (r: Result<(), Error>)
        requires
            old(self).admin_wf(),
            mps <= 0xF,
        ensures
            final(self).admin_wf(),
            final(self).admin_queue == old(self).admin_queue,
            final(self).io_queues == old(self).io_queues,
            final(self).sqes == old(self).sqes,
            final(self).cqes == old(self).cqes,
            final(self).page_size == old(self).page_size,
            final(self).reg == old(self).reg,
            final(self).num_ns == old(self).num_ns,
            final(self).platform.dma() == old(self).platform.dma(),
            final(self).platform.reg_writes() == old(self).platform.reg_writes().push(
                RegWrite {
                    offset: REG_CC,
                    value: NvmeReg::spec_cc_value(mps, old(self).sqes, old(self).cqes) as u64,
                },
            ),
            r is Err ==> (r == Err::<(), Error>(Error::Timeout) || r == Err::<(), Error>(
                Error::Fatal,
            )),
    {
        let reg = self.reg;
        let sqes = self.sqes;
        let cqes = self.cqes;
        reg.enable_ctrl(&mut self.platform, mps, sqes, cqes)
    }

    /// Program AQA with the two admin ring depths and ASQ/ACQ with the two
    /// ring bus addresses.  Only called while the controller is disabled.
    fn nvme_configure_admin_queue(&mut self)
        requires
            old(self).admin_wf(),
        ensures
            final(self).admin_wf(),
            final(self).admin_queue == old(self).admin_queue,
            final(self).io_queues == old(self).io_queues,
            final(self).sqes == old(self).sqes,
            final(self).cqes == old(self).cqes,
            final(self).page_size == old(self).page_size,
            final(self).reg == old(self).reg,
            final(self).num_ns == old(self).num_ns,
            final(self).platform.dma() == old(self).platform.dma(),
            final(self).platform.reg_writes() == old(self).platform.reg_writes().push(
                RegWrite {
                    offset: REG_AQA,
                    value: NvmeReg::spec_aqa(
                        old(self).admin_queue.sq.queue.len,
                        old(self).admin_queue.cq.queue.len,
                    ) as u64,
                },
            ).push(
                RegWrite {
                    offset: REG_ASQ,
                    value: (old(self).admin_queue.sq.queue.mem.phys & QUEUE_BASE_MASK) as u64,
                },
            ).push(
                RegWrite {
                    offset: REG_ACQ,
                    value: (old(self).admin_queue.cq.queue.mem.phys & QUEUE_BASE_MASK) as u64,
                },
            ),
    {
        let reg = self.reg;
        let sq_len = self.admin_queue.sq.len();
        let cq_len = self.admin_queue.cq.len();
        reg.set_admin_submission_and_completion_queue_size(&mut self.platform, sq_len, cq_len);
        let sq_addr = self.admin_queue.sq.bus_addr();
        reg.set_admin_submission_queue_base_address(&mut self.platform, sq_addr);
        let cq_addr = self.admin_queue.cq.bus_addr();
        reg.set_admin_completion_queue_base_address(&mut self.platform, cq_addr);
    }

    /// What one identify round leaves behind, as seen from outside: the
    /// Identify entry — opcode byte 0x06, the requested CNS in CDW10, the
    /// namespace id, PRP1 pointing at the response buffer's bus address,
    /// stamped with the admin queue's next command id — stands in the
    /// admin submission ring at the old tail; the admin queue advanced one
    /// round; and exactly the two admin doorbells were rung, tail first,
    /// head second.  The response buffer itself has been released again.
    pub open spec fn spec_identify_round<T: Identify>(
        self,
        post: Nvme<P>,
        want: T,
        paddr: u64,
    ) -> bool {
        Self::spec_identify_step(
            self.admin_queue,
            self.platform,
            post.admin_queue,
            post.platform,
            T::spec_cns(),
            want.spec_nsid(),
            paddr,
        )
    }

    /// One identify round at the queue level, from admin-queue/platform
    /// state `(a0, p0)` to `(a1, p1)`: the Identify entry for CNS selector
    /// `cns` and namespace id `nsid` — PRP1 at `paddr`, stamped with the
    /// queue's next command id — stands spliced into the submission ring at
    /// the old tail, the queue advanced one round, and exactly its two
    /// doorbells were rung.  The response buffer has been released again.
    pub open spec fn spec_identify_step(
        a0: NvmeQueue,
        p0: P,
        a1: NvmeQueue,
        p1: P,
        cns: u32,
        nsid: u32,
        paddr: u64,
    ) -> bool {
        let cmd = (CommandSet { cdw0: 0x06, nsid, cdw10: cns, prp1: paddr, ..CommandSet::spec_zero() });
        let entry = cmd.spec_with_command_id(a0.id_counter);
        &&& spec_queue_round(a0, a1)
        &&& p1.dma() == p0.dma().insert(
            a0.sq.queue.mem.handle,
            crate::platform::splice_bytes(
                p0.dma()[a0.sq.queue.mem.handle],
                (a0.sq.tail as int) * 64,
                entry.spec_bytes(),
            ),
        )
        &&& p1.reg_writes() == p0.reg_writes().push(
            spec_sq_doorbell(a0.reg, a0.qid as u16, a1.sq.tail),
        ).push(spec_cq_doorbell(a0.reg, a0.qid as u16, a1.cq.head))
    }

    /// An identify round that was submitted but never answered, at the
    /// queue level: the entry stands in the ring and the tail doorbell was
    /// rung, but the completion side never moved and the response buffer
    /// was released unread.
    pub open spec fn spec_identify_submitted_step(
        a0: NvmeQueue,
        p0: P,
        a1: NvmeQueue,
        p1: P,
        cns: u32,
        nsid: u32,
        paddr: u64,
    ) -> bool {
        let cmd = (CommandSet { cdw0: 0x06, nsid, cdw10: cns, prp1: paddr, ..CommandSet::spec_zero() });
        let entry = cmd.spec_with_command_id(a0.id_counter);
        &&& a1.qid == a0.qid
        &&& a1.reg == a0.reg
        &&& a1.sq.queue == a0.sq.queue
        &&& a1.cq == a0.cq
        &&& a1.id_counter == (if a0.id_counter == 0xFFFF {
            0u16
        } else {
            (a0.id_counter + 1) as u16
        })
        &&& a1.sq.tail as int == (a0.sq.tail + 1) % (a0.sq.queue.len as int)
        &&& p1.dma() == p0.dma().insert(
            a0.sq.queue.mem.handle,
            crate::platform::splice_bytes(
                p0.dma()[a0.sq.queue.mem.handle],
                (a0.sq.tail as int) * 64,
                entry.spec_bytes(),
            ),
        )
        &&& p1.reg_writes() == p0.reg_writes().push(
            spec_sq_doorbell(a0.reg, a0.qid as u16, a1.sq.tail),
        )
    }

    /// Issue one Identify command: allocate a zeroed, page-aligned 4 KiB
    /// device-to-host buffer, point PRP1 at it, submit on the admin queue,
    /// and hand the buffer bytes to the requested structure's reader.
    #[verifier::spinoff_prover]
    #[verifier::rlimit(60)]
    pub fn get_identfy<T: Identify>(&mut self, want: T) -> (r: Result<T::Output, Error>)
        requires
            old(self).admin_wf(),
        ensures
            final(self).admin_wf(),
            final(self).io_queues == old(self).io_queues,
            final(self).sqes == old(self).sqes,
            final(self).cqes == old(self).cqes,
            final(self).page_size == old(self).page_size,
            final(self).reg == old(self).reg,
            final(self).num_ns == old(self).num_ns,
            final(self).admin_queue.sq.queue == old(self).admin_queue.sq.queue,
            final(self).admin_queue.cq.queue == old(self).admin_queue.cq.queue,
            final(self).admin_queue.qid == old(self).admin_queue.qid,
            final(self).admin_queue.reg == old(self).admin_queue.reg,
            forall|i: int|
                0 <= i < old(self).io_queues@.len() && (#[trigger] old(self).io_queues@[i]).wf(
                    &old(self).platform,
                ) ==> old(self).io_queues@[i].wf(&final(self).platform),
            r matches Ok(out) ==> spec_parse_evidence::<T>(out),
            match r {
                Ok(_) => exists|paddr: u64|
                    old(self).spec_identify_round::<T>(*final(self), want, paddr),
                Err(e) => match e {
                    Error::Device(w) => (w >> 1) != 0 && exists|paddr: u64|
                        old(self).spec_identify_round::<T>(*final(self), want, paddr),
                    Error::NoMemory => {
                        &&& final(self).platform.dma() == old(self).platform.dma()
                        &&& final(self).platform.reg_writes() == old(self).platform.reg_writes()
                        &&& final(self).admin_queue == old(self).admin_queue
                    },
                    Error::Fatal | Error::Timeout => {
                        ||| (final(self).admin_queue == old(self).admin_queue && final(self).platform.dma() == old(self).platform.dma() && final(self).platform.reg_writes() == old(self).platform.reg_writes())
                        ||| exists|paddr: u64| #[trigger] Self::spec_identify_submitted_step(
                            old(self).admin_queue,
                            old(self).platform,
                            final(self).admin_queue,
                            final(self).platform,
                            T::spec_cns(),
                            want.spec_nsid(),
                            paddr,
                        )
                    },
                    _ => false,
                },
            },
    {
        let page_size = self.page_size;
        let buff = match DMAVec::zeros(
            &mut self.platform,
            4096,
            1,
            page_size,
            Direction::FromDevice,
        ) {
            Ok(b) => b,
            Err(_) => {
                return Err(Error::NoMemory);
            },
        };
        let cmd = CommandSet {
            cdw0: CommandSet::cdw0_from_opcode(crate::command::Opcode::identify(), 0),
            nsid: want.nsid(),
            cdw10: T::cns(),
            prp1: buff.bus_addr(),
            ..CommandSet::zero()
        };
        proof {
            lemma_queue_wf_after_submap(self.admin_queue, old(self).platform, self.platform);
        }
        let ghost pa = self.platform;
        let cr = self.admin_queue.command_sync(&mut self.platform, cmd);
        let ghost paddr = buff.mem.phys;
        let ghost hb = buff.mem.handle;
        match cr {
            Ok(_) => {},
            Err(e) => {
                let ghost p_ac = self.platform;
                buff.free(&mut self.platform);
                proof {
                    match e {
                        Error::Device(_) => {
                            self.lemma_identify_round_composes(
                                *old(self),
                                pa,
                                hb,
                                cmd.spec_with_command_id(old(self).admin_queue.id_counter),
                            );
                            assert(old(self).spec_identify_round::<T>(*self, want, paddr));
                        },
                        Error::Fatal | Error::Timeout => {
                            if self.admin_queue == old(self).admin_queue && p_ac.dma() == pa.dma()
                                && p_ac.reg_writes() == pa.reg_writes() {
                                assert(self.platform.dma() =~= old(self).platform.dma());
                            } else {
                                self.lemma_identify_round_composes(
                                    *old(self),
                                    pa,
                                    hb,
                                    cmd.spec_with_command_id(old(self).admin_queue.id_counter),
                                );
                                assert(Self::spec_identify_submitted_step(
                                    old(self).admin_queue,
                                    old(self).platform,
                                    self.admin_queue,
                                    self.platform,
                                    T::spec_cns(),
                                    want.spec_nsid(),
                                    paddr,
                                ));
                            }
                        },
                        _ => {},
                    }
                }
                return Err(e);
            },
        }
        let data = self.platform.dma_read(&buff.mem, 0, 4096);
        let out = want.parse(data.as_slice());
        buff.free(&mut self.platform);
        proof {
            assert(spec_parse_evidence::<T>(out)) by {
                assert(data@.len() == 4096 && T::parse_post(data@, out));
            }
            self.lemma_identify_round_composes(
                *old(self),
                pa,
                hb,
                cmd.spec_with_command_id(old(self).admin_queue.id_counter),
            );
            assert(old(self).spec_identify_round::<T>(*self, want, paddr));
        }
        Ok(out)
    }

    /// One admin round ran against the shadow map that held the identify
    /// buffer (`pa`), and the buffer was then released: as seen from the
    /// pre-round map, the only change is the entry spliced into the admin
    /// submission ring.
    proof fn lemma_identify_round_composes(
        &self,
        pre: Nvme<P>,
        pa: P,
        hb: u64,
        entry: CommandSet,
    )
        requires
            pre.admin_wf(),
            !pre.platform.dma().contains_key(hb),
            hb != pre.admin_queue.sq.queue.mem.handle,
            pa.dma() == pre.platform.dma().insert(hb, crate::platform::zero_bytes(4096)),
            self.admin_queue.sq.queue == pre.admin_queue.sq.queue,
            self.platform.dma() == pa.dma().insert(
                pre.admin_queue.sq.queue.mem.handle,
                crate::platform::splice_bytes(
                    pa.dma()[pre.admin_queue.sq.queue.mem.handle],
                    (pre.admin_queue.sq.tail as int) * 64,
                    entry.spec_bytes(),
                ),
            ).remove(hb),
        ensures
            self.platform.dma() == pre.platform.dma().insert(
                pre.admin_queue.sq.queue.mem.handle,
                crate::platform::splice_bytes(
                    pre.platform.dma()[pre.admin_queue.sq.queue.mem.handle],
                    (pre.admin_queue.sq.tail as int) * 64,
                    entry.spec_bytes(),
                ),
            ),
    {
        let sqh = pre.admin_queue.sq.queue.mem.handle;
        assert(pa.dma()[sqh] == pre.platform.dma()[sqh]);
        assert(self.platform.dma() =~= pre.platform.dma().insert(
            sqh,
            crate::platform::splice_bytes(
                pre.platform.dma()[sqh],
                (pre.admin_queue.sq.tail as int) * 64,
                entry.spec_bytes(),
            ),
        ));
    }

    /// The namespace-identify rounds behind an enumeration: one Identify
    /// Namespace round (CNS 0) per returned descriptor, naming that
    /// descriptor's id, in list order, threading the admin queue and
    /// platform from `(a0, p0)` to `(a1, p1)`.
    pub open spec fn spec_enumeration_chain(
        a0: NvmeQueue,
        p0: P,
        a1: NvmeQueue,
        p1: P,
        items: Seq<Namespace>,
    ) -> bool
        decreases items.len(),
    {
        if items.len() == 0 {
            a1 == a0 && p1 == p0
        } else {
            exists|am: NvmeQueue, pm: P, paddr: u64|
                {
                    &&& #[trigger] Self::spec_identify_step(a0, p0, am, pm, 0, items[0].id, paddr)
                    &&& Self::spec_enumeration_chain(am, pm, a1, p1, items.drop_first())
                }
        }
    }

    /// Appending one namespace-identify round to a chain keeps it a chain.
    proof fn lemma_enumeration_chain_snoc(
        a0: NvmeQueue,
        p0: P,
        a1: NvmeQueue,
        p1: P,
        items: Seq<Namespace>,
        item: Namespace,
        paddr: u64,
        a2: NvmeQueue,
        p2: P,
    )
        requires
            Self::spec_enumeration_chain(a0, p0, a1, p1, items),
            Self::spec_identify_step(a1, p1, a2, p2, 0, item.id, paddr),
        ensures
            Self::spec_enumeration_chain(a0, p0, a2, p2, items.push(item)),
        decreases items.len(),
    {
        if items.len() == 0 {
            assert(items.push(item)[0] == item);
            assert(items.push(item).drop_first() =~= items);
            assert(Self::spec_identify_step(a0, p0, a2, p2, 0, item.id, paddr));
            assert(Self::spec_enumeration_chain(
                a2,
                p2,
                a2,
                p2,
                items.push(item).drop_first(),
            ));
        } else {
            let (am, pm, pd) = choose|am: NvmeQueue, pm: P, pd: u64| #[trigger]
                Self::spec_identify_step(a0, p0, am, pm, 0, items[0].id, pd)
                    && Self::spec_enumeration_chain(am, pm, a1, p1, items.drop_first());
            Self::lemma_enumeration_chain_snoc(
                am,
                pm,
                a1,
                p1,
                items.drop_first(),
                item,
                paddr,
                a2,
                p2,
            );
            assert(items.push(item).drop_first() =~= items.drop_first().push(item));
            assert(items.push(item)[0] == items[0]);
            assert(Self::spec_identify_step(a0, p0, am, pm, 0, items.push(item)[0].id, pd));
            assert(Self::spec_enumeration_chain(am, pm, a2, p2, items.push(item).drop_first()));
        }
    }

    /// The rounds behind one enumeration, anchored end to end: from the
    /// pre state, one Identify Active Namespace ID List round (CNS 2),
    /// then one Identify Namespace round per returned descriptor.
    pub open spec fn spec_enumerated(
        pre: Nvme<P>,
        post: Nvme<P>,
        items: Seq<Namespace>,
        am: NvmeQueue,
        pm: P,
        paddr: u64,
    ) -> bool {
        &&& Self::spec_identify_step(pre.admin_queue, pre.platform, am, pm, 0x02, 0, paddr)
        &&& Self::spec_enumeration_chain(am, pm, post.admin_queue, post.platform, items)
    }

    /// Some response buffer and some admin-state path witness the rounds of
    /// one enumeration from `pre` to `post`.
    pub open spec fn spec_enumeration_evidence(
        pre: Nvme<P>,
        post: Nvme<P>,
        items: Seq<Namespace>,
    ) -> bool {
        exists|am: NvmeQueue, pm: P, paddr: u64| #[trigger]
            Self::spec_enumerated(pre, post, items, am, pm, paddr)
    }

    #[verifier::spinoff_prover]
    /// Enumerate the active namespaces: ask for the id list, then identify
    /// each namespace and derive its descriptor.
    #[verifier::spinoff_prover]
    #[verifier::rlimit(100)]
    pub fn namespace_list(&mut self) -> (r: Result<Vec<Namespace>, Error>)
        requires
            old(self).admin_wf(),
        ensures
            final(self).admin_wf(),
            final(self).io_queues == old(self).io_queues,
            final(self).sqes == old(self).sqes,
            final(self).cqes == old(self).cqes,
            final(self).page_size == old(self).page_size,
            final(self).reg == old(self).reg,
            final(self).num_ns == old(self).num_ns,
            forall|i: int|
                0 <= i < old(self).io_queues@.len() && (#[trigger] old(self).io_queues@[i]).wf(
                    &old(self).platform,
                ) ==> old(self).io_queues@[i].wf(&final(self).platform),
            match r {
                Ok(list) => {
                    &&& exists|data: Seq<u8>|
                        data.len() == 4096 && list@.len() == #[trigger] spec_active_list(
                            data,
                        ).len() && (forall|i: int|
                            0 <= i < list@.len() ==> list@[i].id == spec_active_list(data)[i])
                    &&& forall|i: int|
                        0 <= i < list@.len() ==> exists|d: Seq<u8>|
                            d.len() == 4096 && #[trigger] list@[i] == spec_namespace_from(
                                list@[i].id,
                                crate::command::spec_parse_namespace(d),
                            )
                    &&& Self::spec_enumeration_evidence(*old(self), *final(self), list@)
                },
                Err(_) => true,
            },
            exists|dbs: Seq<RegWrite>|
                spec_only_admin_doorbells(dbs, old(self).reg) && final(self).platform.reg_writes()
                    == old(self).platform.reg_writes() + dbs,
    {
        let ghost mut dbs: Seq<RegWrite> = Seq::empty();
        let ghost nv0 = *self;
        let want_list = IdentifyActiveNamespaceList::new();
        let ghost gw_list = want_list;
        let id_list = match self.get_identfy(want_list) {
            Ok(l) => l,
            Err(e) => {
                proof {
                    match e {
                        Error::Device(_) => {
                            let pd = choose|pd: u64|
                                nv0.spec_identify_round::<IdentifyActiveNamespaceList>(
                                    *self,
                                    gw_list,
                                    pd,
                                );
                            dbs = dbs + seq![
                                spec_sq_doorbell(old(self).reg, 0, self.admin_queue.sq.tail),
                                spec_cq_doorbell(old(self).reg, 0, self.admin_queue.cq.head),
                            ];
                        },
                        Error::Fatal | Error::Timeout => {
                            if self.platform.reg_writes() != nv0.platform.reg_writes() {
                                let pd = choose|pd: u64| #[trigger]
                                    Self::spec_identify_submitted_step(
                                        nv0.admin_queue,
                                        nv0.platform,
                                        self.admin_queue,
                                        self.platform,
                                        0x02,
                                        0,
                                        pd,
                                    );
                                dbs = dbs.push(
                                    spec_sq_doorbell(old(self).reg, 0, self.admin_queue.sq.tail),
                                );
                            }
                        },
                        _ => {},
                    }
                    assert(spec_only_admin_doorbells(dbs, old(self).reg));
                    assert(self.platform.reg_writes() =~= old(self).platform.reg_writes() + dbs);
                }
                return Err(e);
            },
        };
        let ghost a_ls = self.admin_queue;
        let ghost p_ls = self.platform;
        let ghost paddr_ls: u64 = choose|pd: u64|
            nv0.spec_identify_round::<IdentifyActiveNamespaceList>(*self, gw_list, pd);
        proof {
            assert(Self::spec_identify_step(
                old(self).admin_queue,
                old(self).platform,
                a_ls,
                p_ls,
                0x02,
                0,
                paddr_ls,
            ));
            dbs = dbs + seq![
                spec_sq_doorbell(old(self).reg, 0, self.admin_queue.sq.tail),
                spec_cq_doorbell(old(self).reg, 0, self.admin_queue.cq.head),
            ];
            assert(self.platform.reg_writes() =~= old(self).platform.reg_writes() + dbs);
        }
        let mut out: Vec<Namespace> = Vec::new();
        let mut k: usize = 0;
        while k < id_list.len()
            invariant
                self.admin_wf(),
                self.io_queues == old(self).io_queues,
                self.sqes == old(self).sqes,
                self.cqes == old(self).cqes,
                self.page_size == old(self).page_size,
                self.reg == old(self).reg,
                self.num_ns == old(self).num_ns,
                forall|i: int|
                    0 <= i < old(self).io_queues@.len() && (#[trigger] old(self).io_queues@[i]).wf(&old(self).platform) ==> old(self).io_queues@[i].wf(
                        &self.platform,
                    ),
                k <= id_list@.len(),
                out@.len() == k,
                forall|i: int| 0 <= i < k ==> (#[trigger] out@[i]).id == id_list@[i],
                forall|i: int|
                    0 <= i < k ==> exists|d: Seq<u8>|
                        d.len() == 4096 && #[trigger] out@[i] == spec_namespace_from(
                            out@[i].id,
                            crate::command::spec_parse_namespace(d),
                        ),
                exists|data: Seq<u8>|
                    data.len() == 4096 && id_list@ == #[trigger] spec_active_list(data),
                spec_only_admin_doorbells(dbs, old(self).reg),
                self.platform.reg_writes() == old(self).platform.reg_writes() + dbs,
                Self::spec_identify_step(
                    old(self).admin_queue,
                    old(self).platform,
                    a_ls,
                    p_ls,
                    0x02,
                    0,
                    paddr_ls,
                ),
                Self::spec_enumeration_chain(a_ls, p_ls, self.admin_queue, self.platform, out@),
            decreases id_list@.len() - k,
        {
            let id = id_list[k];
            let ghost nv_pre = *self;
            let want_ns = IdentifyNamespaceDataStructure::new(id);
            let ghost gw_ns = want_ns;
            let ns = match self.get_identfy(want_ns) {
                Ok(n) => n,
                Err(e) => {
                    proof {
                        match e {
                            Error::Device(_) => {
                                let pd = choose|pd: u64|
                                    nv_pre.spec_identify_round::<IdentifyNamespaceDataStructure>(
                                        *self,
                                        gw_ns,
                                        pd,
                                    );
                                dbs = dbs + seq![
                                    spec_sq_doorbell(old(self).reg, 0, self.admin_queue.sq.tail),
                                    spec_cq_doorbell(old(self).reg, 0, self.admin_queue.cq.head),
                                ];
                            },
                            Error::Fatal | Error::Timeout => {
                                if self.platform.reg_writes() != nv_pre.platform.reg_writes() {
                                    let pd = choose|pd: u64| #[trigger]
                                        Self::spec_identify_submitted_step(
                                            nv_pre.admin_queue,
                                            nv_pre.platform,
                                            self.admin_queue,
                                            self.platform,
                                            0,
                                            gw_ns.command_set.nsid,
                                            pd,
                                        );
                                    dbs = dbs.push(
                                        spec_sq_doorbell(
                                            old(self).reg,
                                            0,
                                            self.admin_queue.sq.tail,
                                        ),
                                    );
                                }
                            },
                            _ => {},
                        }
                        assert(spec_only_admin_doorbells(dbs, old(self).reg));
                        assert(self.platform.reg_writes() =~= old(self).platform.reg_writes()
                            + dbs);
                    }
                    return Err(e);
                },
            };
            proof {
                let paddr = choose|pd: u64|
                    nv_pre.spec_identify_round::<IdentifyNamespaceDataStructure>(
                        *self,
                        gw_ns,
                        pd,
                    );
                dbs = dbs + seq![
                    spec_sq_doorbell(old(self).reg, 0, self.admin_queue.sq.tail),
                    spec_cq_doorbell(old(self).reg, 0, self.admin_queue.cq.head),
                ];
                assert(self.platform.reg_writes() =~= old(self).platform.reg_writes() + dbs);
                Self::lemma_enumeration_chain_snoc(
                    a_ls,
                    p_ls,
                    nv_pre.admin_queue,
                    nv_pre.platform,
                    out@,
                    Namespace {
                        id,
                        lba_size: ns.lba_size as usize,
                        lba_count: ns.namespace_size as usize,
                        metadata_size: ns.metadata_size as usize,
                    },
                    paddr,
                    self.admin_queue,
                    self.platform,
                );
            }
            out.push(
                Namespace {
                    id,
                    lba_size: ns.lba_size as usize,
                    lba_count: ns.namespace_size as usize,
                    metadata_size: ns.metadata_size as usize,
                },
            );
            k = k + 1;
        }
        proof {
            assert(Self::spec_enumerated(*old(self), *self, out@, a_ls, p_ls, paddr_ls));
            assert(Self::spec_enumeration_evidence(*old(self), *self, out@));
        }
        Ok(out)
    }

    /// The two create rounds behind one I/O pair, at the queue level: from
    /// `(a0, p0)` the pair's rings were allocated — the shadow map only
    /// grew, no register touched — then the Create I/O Completion Queue
    /// round for `q.cq`'s ring ran, then the Create I/O Submission Queue
    /// round whose CDW11 names the same `qid`, ending at `(a1, p1)`.
    pub open spec fn spec_pair_step(
        a0: NvmeQueue,
        p0: P,
        a1: NvmeQueue,
        p1: P,
        q: NvmeQueue,
        qid: u32,
        depth: usize,
    ) -> bool {
        exists|pm0: P, pm1: P, qm: NvmeQueue|
            {
                &&& p0.dma().submap_of(pm0.dma())
                &&& pm0.reg_writes() == p0.reg_writes()
                &&& #[trigger] a0.spec_completed_round(
                    qm,
                    pm0,
                    pm1,
                    CommandSet::spec_create_io_completion_queue(
                        qid,
                        depth as u32,
                        q.cq.queue.mem.phys,
                        true,
                        false,
                        0,
                    ),
                )
                &&& qm.spec_completed_round(
                    a1,
                    pm1,
                    p1,
                    CommandSet::spec_create_io_submission_queue(
                        qid,
                        depth as u32,
                        q.sq.queue.mem.phys,
                        true,
                        0,
                        qid,
                        0,
                    ),
                )
            }
    }

    /// The pair-creation rounds behind an I/O configuration: one
    /// [`Self::spec_pair_step`] per pair, in list order, qids counting up
    /// from `first_qid`, threading the admin queue and platform from
    /// `(a0, p0)` to `(a1, p1)`.
    pub open spec fn spec_pairs_chain(
        a0: NvmeQueue,
        p0: P,
        a1: NvmeQueue,
        p1: P,
        pairs: Seq<NvmeQueue>,
        first_qid: int,
        depth: usize,
    ) -> bool
        decreases pairs.len(),
    {
        if pairs.len() == 0 {
            a1 == a0 && p1 == p0
        } else {
            exists|am: NvmeQueue, pm: P|
                {
                    &&& #[trigger] Self::spec_pair_step(
                        a0,
                        p0,
                        am,
                        pm,
                        pairs[0],
                        first_qid as u32,
                        depth,
                    )
                    &&& Self::spec_pairs_chain(
                        am,
                        pm,
                        a1,
                        p1,
                        pairs.drop_first(),
                        first_qid + 1,
                        depth,
                    )
                }
        }
    }

    /// Appending one pair's rounds to a chain keeps it a chain.
    proof fn lemma_pairs_chain_snoc(
        a0: NvmeQueue,
        p0: P,
        a1: NvmeQueue,
        p1: P,
        pairs: Seq<NvmeQueue>,
        first_qid: int,
        depth: usize,
        q: NvmeQueue,
        a2: NvmeQueue,
        p2: P,
    )
        requires
            Self::spec_pairs_chain(a0, p0, a1, p1, pairs, first_qid, depth),
            Self::spec_pair_step(a1, p1, a2, p2, q, (first_qid + pairs.len()) as u32, depth),
        ensures
            Self::spec_pairs_chain(a0, p0, a2, p2, pairs.push(q), first_qid, depth),
        decreases pairs.len(),
    {
        if pairs.len() == 0 {
            assert(pairs.push(q)[0] == q);
            assert(pairs.push(q).drop_first() =~= pairs);
            assert(Self::spec_pair_step(a0, p0, a2, p2, q, first_qid as u32, depth));
            assert(Self::spec_pairs_chain(
                a2,
                p2,
                a2,
                p2,
                pairs.push(q).drop_first(),
                first_qid + 1,
                depth,
            ));
        } else {
            let (am, pm) = choose|am: NvmeQueue, pm: P| #[trigger]
                Self::spec_pair_step(a0, p0, am, pm, pairs[0], first_qid as u32, depth)
                    && Self::spec_pairs_chain(
                    am,
                    pm,
                    a1,
                    p1,
                    pairs.drop_first(),
                    first_qid + 1,
                    depth,
                );
            Self::lemma_pairs_chain_snoc(
                am,
                pm,
                a1,
                p1,
                pairs.drop_first(),
                first_qid + 1,
                depth,
                q,
                a2,
                p2,
            );
            assert(pairs.push(q).drop_first() =~= pairs.drop_first().push(q));
            assert(pairs.push(q)[0] == pairs[0]);
            assert(Self::spec_pair_step(a0, p0, am, pm, pairs.push(q)[0], first_qid as u32, depth));
            assert(Self::spec_pairs_chain(
                am,
                pm,
                a2,
                p2,
                pairs.push(q).drop_first(),
                first_qid + 1,
                depth,
            ));
        }
    }

    /// The whole I/O configuration session, anchored end to end: from
    /// `(a0, p0)` the Set Features round asking for `n` pairs, then the
    /// pair-creation chain for exactly the pairs the configuration ended
    /// with, qids from one, ending at `(a1, p1)`.
    pub open spec fn spec_io_session(
        a0: NvmeQueue,
        p0: P,
        a1: NvmeQueue,
        p1: P,
        pairs: Seq<NvmeQueue>,
        n: usize,
        depth: usize,
    ) -> bool {
        exists|qm: NvmeQueue, pm: P|
            {
                &&& #[trigger] Self::spec_requested_queue_count(a0, p0, n, qm, pm)
                &&& Self::spec_pairs_chain(qm, pm, a1, p1, pairs, 1, depth)
            }
    }

    /// The very first admin round of I/O configuration was a Set Features:
    /// Number of Queues asking for `n` pairs — CDW10 naming the feature,
    /// CDW11 carrying the zero-based submission and completion counts.
    pub open spec fn spec_requested_queue_count(
        a0: NvmeQueue,
        p0: P,
        n: usize,
        qm: NvmeQueue,
        pm: P,
    ) -> bool {
        a0.spec_completed_round(
            qm,
            p0,
            pm,
            CommandSet::spec_set_features(
                Feature::NumberOfQueues { nsq: (n - 1) as u32, ncq: (n - 1) as u32 },
            ),
        )
    }

    /// Ask for the I/O queue count, then create each granted pair:
    /// completion queue first, submission queue second, the submission
    /// queue naming its completion queue, interrupts disabled throughout.
    /// The admin ring depth this driver chooses: 64 entries, capped by the
    /// deepest queue the controller supports (`CAP.MQES + 1`).
    pub open spec fn spec_admin_depth(reg: NvmeReg) -> usize {
        if (reg.spec_mqes() as int) + 1 < 64 {
            (reg.spec_mqes() + 1) as usize
        } else {
            64
        }
    }

    /// The I/O ring depth this driver chooses: `2^sqes` entries, capped by
    /// the deepest queue the controller supports (`CAP.MQES + 1`).
    pub open spec fn spec_io_depth(sqes: u32, reg: NvmeReg) -> usize {
        let d = 1usize << sqes;
        if (reg.spec_mqes() as int) + 1 < d as int {
            (reg.spec_mqes() + 1) as usize
        } else {
            d
        }
    }

    /// How many I/O queue pairs the Set Features completion grants: the
    /// zero-based NSQA (low word) and NCQA (high word) of the result's low
    /// dword, each plus one, capped by what was requested.
    pub open spec fn spec_granted_pairs(requested: usize, dw0: u32) -> usize {
        let nsqa = ((dw0 & 0xFFFF) + 1) as usize;
        let ncqa = (((dw0 >> 16) & 0xFFFF) + 1) as usize;
        let m = if nsqa < requested {
            nsqa
        } else {
            requested
        };
        if ncqa < m {
            ncqa
        } else {
            m
        }
    }

    /// Read the Set Features: Number of Queues grant out of a completion
    /// result and cap it by the requested pair count.
    fn granted_pairs(requested: usize, result: u64) -> (r: usize)
        requires
            1 <= requested,
        ensures
            r == Self::spec_granted_pairs(requested, (result & 0xFFFF_FFFF) as u32),
            1 <= r <= requested,
    {
        proof {
            let x = result;
            assert(x & 0xFFFF_FFFF <= 0xFFFF_FFFF) by (bit_vector);
        }
        let dw0: u32 = (result & 0xFFFF_FFFF) as u32;
        proof {
            let y = dw0;
            assert((y & 0xFFFF) <= 0xFFFF && ((y >> 16) & 0xFFFF) <= 0xFFFF) by (bit_vector);
        }
        let nsqa: usize = ((dw0 & 0xFFFF) as usize) + 1;
        let ncqa: usize = (((dw0 >> 16) & 0xFFFF) as usize) + 1;
        let mut granted = requested;
        if nsqa < granted {
            granted = nsqa;
        }
        if ncqa < granted {
            granted = ncqa;
        }
        granted
    }

    /// Create one I/O queue pair: allocate both rings, then issue on the
    /// admin queue a Create I/O Completion Queue — physically contiguous,
    /// interrupts off — strictly before the Create I/O Submission Queue
    /// whose CDW11 names that completion queue, each PRP1 the ring's bus
    /// address.  The contract pins both rounds, in that order.
    fn create_io_queue_pair(&mut self, qid: u32, depth: usize) -> (r: Result<NvmeQueue, Error>)
        requires
            old(self).admin_wf(),
            1 <= qid <= 0xFFFF,
            1 <= depth <= 0x10000,
        ensures
            final(self).admin_wf(),
            final(self).sqes == old(self).sqes,
            final(self).cqes == old(self).cqes,
            final(self).page_size == old(self).page_size,
            final(self).reg == old(self).reg,
            final(self).num_ns == old(self).num_ns,
            final(self).io_queues == old(self).io_queues,
            final(self).admin_queue.sq.queue == old(self).admin_queue.sq.queue,
            final(self).admin_queue.cq.queue == old(self).admin_queue.cq.queue,
            exists|dbs: Seq<RegWrite>|
                spec_only_admin_doorbells(dbs, old(self).reg) && final(self).platform.reg_writes()
                    == old(self).platform.reg_writes() + dbs,
            forall|i: int|
                0 <= i < old(self).io_queues@.len() && (#[trigger] old(self).io_queues@[i]).wf(
                    &old(self).platform,
                ) ==> old(self).io_queues@[i].wf(&final(self).platform),
            match r {
                Ok(q) => {
                    &&& q.wf(&final(self).platform)
                    &&& q.qid == qid
                    &&& q.sq.queue.len == depth
                    &&& q.cq.queue.len == depth
                    &&& q.sq.tail == 0
                    &&& q.cq.head == 0
                    &&& q.cq.phase == false
                    &&& q.id_counter == 0
                    &&& exists|pm0: P, pm1: P, qm: NvmeQueue| #[trigger]
                        Self::spec_pair_created(
                            *old(self),
                            *final(self),
                            q,
                            qid,
                            depth,
                            pm0,
                            pm1,
                            qm,
                        )
                },
                Err(e) => e != Error::InvalidArgument && e != Error::Layout,
            },
    {
        let ghost mut dbs: Seq<RegWrite> = Seq::empty();
        let reg = self.reg;
        let page_size = self.page_size;
        let ghost p_alloc = self.platform;
        let io = match NvmeQueue::new(&mut self.platform, qid, reg, page_size, depth, depth) {
            Ok(q) => q,
            Err(e) => {
                proof {
                    assert(spec_only_admin_doorbells(dbs, old(self).reg));
                    assert(self.platform.reg_writes() =~= old(self).platform.reg_writes() + dbs);
                }
                return Err(e);
            },
        };
        proof {
            lemma_queue_wf_after_submap(self.admin_queue, p_alloc, self.platform);
        }
        let ghost pm0 = self.platform;
        let cq_size = io.cq.len();
        let cq_addr = io.cq.bus_addr();
        let data = CommandSet::create_io_completion_queue(qid, cq_size as u32, cq_addr, true, false, 0);
        match self.admin_queue.command_sync(&mut self.platform, data) {
            Ok(_) => {},
            Err(e) => {
                proof {
                    dbs = self.extend_doorbells(*old(self), pm0, dbs);
                    assert(spec_only_admin_doorbells(dbs, old(self).reg));
                }
                return Err(e);
            },
        }
        let ghost pm1 = self.platform;
        let ghost qm = self.admin_queue;
        proof {
            dbs = dbs + seq![
                spec_sq_doorbell(old(self).reg, 0, self.admin_queue.sq.tail),
                spec_cq_doorbell(old(self).reg, 0, self.admin_queue.cq.head),
            ];
            assert(spec_only_admin_doorbells(dbs, old(self).reg));
            assert(self.platform.reg_writes() =~= old(self).platform.reg_writes() + dbs);
        }
        let sq_size = io.sq.len();
        let sq_addr = io.sq.bus_addr();
        let data = CommandSet::create_io_submission_queue(qid, sq_size as u32, sq_addr, true, 0, qid, 0);
        match self.admin_queue.command_sync(&mut self.platform, data) {
            Ok(_) => {},
            Err(e) => {
                proof {
                    dbs = self.extend_doorbells(*old(self), pm1, dbs);
                    assert(spec_only_admin_doorbells(dbs, old(self).reg));
                }
                return Err(e);
            },
        }
        proof {
            dbs = dbs + seq![
                spec_sq_doorbell(old(self).reg, 0, self.admin_queue.sq.tail),
                spec_cq_doorbell(old(self).reg, 0, self.admin_queue.cq.head),
            ];
            assert(spec_only_admin_doorbells(dbs, old(self).reg));
            assert(self.platform.reg_writes() =~= old(self).platform.reg_writes() + dbs);
            assert(Self::spec_pair_created(*old(self), *self, io, qid, depth, pm0, pm1, qm));
        }
        Ok(io)
    }

    /// How one I/O pair came to be, with the two intermediate states named:
    /// from `pre` the pair's rings were allocated (`pm0`: the shadow map
    /// only grew, no register touched), then one admin round created the
    /// completion queue (`pm1`, `qm`), then one admin round created the
    /// submission queue naming it — so the completion queue exists strictly
    /// before the submission queue that points at it.
    pub open spec fn spec_pair_created(
        pre: Nvme<P>,
        post: Nvme<P>,
        q: NvmeQueue,
        qid: u32,
        depth: usize,
        pm0: P,
        pm1: P,
        qm: NvmeQueue,
    ) -> bool {
        &&& pre.platform.dma().submap_of(pm0.dma())
        &&& pm0.reg_writes() == pre.platform.reg_writes()
        &&& pre.admin_queue.spec_completed_round(
            qm,
            pm0,
            pm1,
            CommandSet::spec_create_io_completion_queue(
                qid,
                depth as u32,
                q.cq.queue.mem.phys,
                true,
                false,
                0,
            ),
        )
        &&& qm.spec_completed_round(
            post.admin_queue,
            pm1,
            post.platform,
            CommandSet::spec_create_io_submission_queue(
                qid,
                depth as u32,
                q.sq.queue.mem.phys,
                true,
                0,
                qid,
                0,
            ),
        )
    }

    /// Ask for the I/O queue count, then create each granted pair:
    /// completion queue first, submission queue second, the submission
    /// queue naming its completion queue, interrupts disabled throughout.
    /// The pair count is the Set Features grant capped by the request; the
    /// pairs carry queue ids one upward in order, all of the chosen depth;
    /// and the register log grows by admin doorbells alone.
    fn config_io_queue(&mut self, config: Config) -> (r: Result<(), Error>)
        requires
            old(self).admin_wf(),
            old(self).io_queues@.len() == 0,
            1 <= config.io_queue_pair_count <= 0xFFFF,
        ensures
            final(self).admin_wf(),
            final(self).sqes == old(self).sqes,
            final(self).cqes == old(self).cqes,
            final(self).page_size == old(self).page_size,
            final(self).reg == old(self).reg,
            final(self).num_ns == old(self).num_ns,
            final(self).admin_queue.sq.queue == old(self).admin_queue.sq.queue,
            final(self).admin_queue.cq.queue == old(self).admin_queue.cq.queue,
            exists|dbs: Seq<RegWrite>|
                spec_only_admin_doorbells(dbs, old(self).reg) && final(self).platform.reg_writes()
                    == old(self).platform.reg_writes() + dbs,
            r is Ok ==> final(self).wf(),
            r is Ok ==> exists|dw0: u32|
                final(self).io_queues@.len() == #[trigger] Self::spec_granted_pairs(
                    config.io_queue_pair_count,
                    dw0,
                ),
            r is Ok ==> Self::spec_io_session(
                old(self).admin_queue,
                old(self).platform,
                final(self).admin_queue,
                final(self).platform,
                final(self).io_queues@,
                config.io_queue_pair_count,
                Self::spec_io_depth(old(self).sqes, old(self).reg),
            ),
            r is Ok ==> forall|j: int|
                0 <= j < final(self).io_queues@.len() ==> {
                    let q = #[trigger] final(self).io_queues@[j];
                    &&& q.qid == j + 1
                    &&& q.sq.queue.len == Self::spec_io_depth(old(self).sqes, old(self).reg)
                    &&& q.cq.queue.len == Self::spec_io_depth(old(self).sqes, old(self).reg)
                    &&& q.sq.tail == 0
                    &&& q.cq.head == 0
                    &&& q.cq.phase == false
                    &&& q.id_counter == 0
                },
            r matches Err(e) ==> e != Error::InvalidArgument && e != Error::Layout,
    {
        let ghost mut dbs: Seq<RegWrite> = Seq::empty();
        let num = config.io_queue_pair_count;
        let nsq: u32 = (num - 1) as u32;
        let cmd = CommandSet::set_features(Feature::NumberOfQueues { nsq, ncq: nsq });
        let ghost p_pre = self.platform;
        let comp = match self.admin_queue.command_sync(&mut self.platform, cmd) {
            Ok(c) => c,
            Err(e) => {
                proof {
                    dbs = self.extend_doorbells(*old(self), p_pre, dbs);
                }
                return Err(e);
            },
        };
        let ghost qm_sf = self.admin_queue;
        let ghost pm_sf = self.platform;
        proof {
            assert(Self::spec_requested_queue_count(old(self).admin_queue, old(self).platform, num, qm_sf, pm_sf));
            dbs = dbs + seq![
                spec_sq_doorbell(old(self).reg, 0, self.admin_queue.sq.tail),
                spec_cq_doorbell(old(self).reg, 0, self.admin_queue.cq.head),
            ];
            assert(self.platform.reg_writes() =~= old(self).platform.reg_writes() + dbs);
        }
        let granted = Self::granted_pairs(num, comp.result);
        let mqes = self.reg.mqes();
        let sqes = self.sqes;
        let mut depth: usize = 1usize << sqes;
        proof {
            let sv = sqes;
            assert(1u64 <= (1u64 << sv) <= 0x8000 && 1usize << sv == 1u64 << sv) by (bit_vector)
                requires
                    sv <= 0xF,
            ;
        }
        if (mqes as usize) + 1 < depth {
            depth = (mqes as usize) + 1;
        }
        let mut i: usize = 0;
        while i < granted
            invariant
                self.admin_wf(),
                self.sqes == old(self).sqes,
                self.cqes == old(self).cqes,
                self.page_size == old(self).page_size,
                self.reg == old(self).reg,
                self.num_ns == old(self).num_ns,
                self.admin_queue.sq.queue == old(self).admin_queue.sq.queue,
                self.admin_queue.cq.queue == old(self).admin_queue.cq.queue,
                1 <= granted <= 0xFFFF,
                i <= granted,
                1 <= depth <= 0x10000,
                depth == Self::spec_io_depth(old(self).sqes, old(self).reg),
                self.io_queues@.len() == i,
                forall|j: int|
                    0 <= j < self.io_queues@.len() ==> {
                        let q = #[trigger] self.io_queues@[j];
                        &&& q.wf(&self.platform)
                        &&& q.qid == j + 1
                        &&& q.sq.queue.len == depth
                        &&& q.cq.queue.len == depth
                        &&& q.sq.tail == 0
                        &&& q.cq.head == 0
                        &&& q.cq.phase == false
                        &&& q.id_counter == 0
                    },
                spec_only_admin_doorbells(dbs, old(self).reg),
                self.platform.reg_writes() == old(self).platform.reg_writes() + dbs,
                Self::spec_requested_queue_count(
                    old(self).admin_queue,
                    old(self).platform,
                    config.io_queue_pair_count,
                    qm_sf,
                    pm_sf,
                ),
                Self::spec_pairs_chain(
                    qm_sf,
                    pm_sf,
                    self.admin_queue,
                    self.platform,
                    self.io_queues@,
                    1,
                    depth,
                ),
            decreases granted - i,
        {
            let qid: u32 = (i + 1) as u32;
            let ghost p_h = self.platform;
            let ghost nv_h = *self;
            let io = match self.create_io_queue_pair(qid, depth) {
                Ok(q) => q,
                Err(e) => {
                    proof {
                        let hdbs = choose|d: Seq<RegWrite>|
                            spec_only_admin_doorbells(d, nv_h.reg)
                                && self.platform.reg_writes() == p_h.reg_writes() + d;
                        dbs = dbs + hdbs;
                        assert(spec_only_admin_doorbells(dbs, old(self).reg));
                        assert(self.platform.reg_writes() =~= old(self).platform.reg_writes()
                            + dbs);
                    }
                    return Err(e);
                },
            };
            proof {
                let hdbs = choose|d: Seq<RegWrite>|
                    spec_only_admin_doorbells(d, nv_h.reg) && self.platform.reg_writes()
                        == p_h.reg_writes() + d;
                dbs = dbs + hdbs;
                assert(spec_only_admin_doorbells(dbs, old(self).reg));
                assert(self.platform.reg_writes() =~= old(self).platform.reg_writes() + dbs);
                let (pm0, pm1, qmc) = choose|pm0: P, pm1: P, qmc: NvmeQueue| #[trigger]
                    Self::spec_pair_created(nv_h, *self, io, qid, depth, pm0, pm1, qmc);
                assert(Self::spec_pair_step(
                    nv_h.admin_queue,
                    nv_h.platform,
                    self.admin_queue,
                    self.platform,
                    io,
                    qid,
                    depth,
                ));
                Self::lemma_pairs_chain_snoc(
                    qm_sf,
                    pm_sf,
                    nv_h.admin_queue,
                    nv_h.platform,
                    nv_h.io_queues@,
                    1,
                    depth,
                    io,
                    self.admin_queue,
                    self.platform,
                );
            }
            self.io_queues.push(io);
            i = i + 1;
        }
        proof {
            assert(Self::spec_io_session(
                old(self).admin_queue,
                old(self).platform,
                self.admin_queue,
                self.platform,
                self.io_queues@,
                config.io_queue_pair_count,
                depth,
            ));
        }
        Ok(())
    }

    /// Account one possibly-cut-short admin round into the doorbell tail:
    /// whatever `command_sync` did on top of `p_pre`, the register log is
    /// still the base log plus admin doorbells alone.
    proof fn extend_doorbells(&self, base: Nvme<P>, p_pre: P, dbs: Seq<RegWrite>) -> (r: Seq<
        RegWrite,
    >)
        requires
            spec_only_admin_doorbells(dbs, base.reg),
            p_pre.reg_writes() == base.platform.reg_writes() + dbs,
            self.admin_queue.qid == 0,
            self.admin_queue.reg == base.reg,
            self.platform.reg_writes() == p_pre.reg_writes() || self.platform.reg_writes()
                == p_pre.reg_writes().push(
                spec_sq_doorbell(base.reg, 0, self.admin_queue.sq.tail),
            ) || self.platform.reg_writes() == p_pre.reg_writes().push(
                spec_sq_doorbell(base.reg, 0, self.admin_queue.sq.tail),
            ).push(spec_cq_doorbell(base.reg, 0, self.admin_queue.cq.head)),
        ensures
            spec_only_admin_doorbells(r, base.reg),
            self.platform.reg_writes() == base.platform.reg_writes() + r,
    {
        let sqdb = spec_sq_doorbell(base.reg, 0, self.admin_queue.sq.tail);
        let cqdb = spec_cq_doorbell(base.reg, 0, self.admin_queue.cq.head);
        if self.platform.reg_writes() == p_pre.reg_writes() {
            assert(self.platform.reg_writes() =~= base.platform.reg_writes() + dbs);
            dbs
        } else if self.platform.reg_writes() == p_pre.reg_writes().push(sqdb) {
            assert(self.platform.reg_writes() =~= base.platform.reg_writes() + dbs.push(sqdb));
            dbs.push(sqdb)
        } else {
            assert(self.platform.reg_writes() =~= base.platform.reg_writes() + dbs.push(
                sqdb,
            ).push(cqdb));
            dbs.push(sqdb).push(cqdb)
        }
    }

    /// A transfer is refused outright when the block size is zero, the
    /// buffer is empty, the length is not a whole number of blocks, the
    /// transfer exceeds what PRP1 alone addresses (two pages), or it spans
    /// more blocks than the 16-bit count field carries.
    pub open spec fn spec_bad_transfer(&self, ns: Namespace, len: nat) -> bool {
        ||| ns.lba_size == 0
        ||| len == 0
        ||| len % (ns.lba_size as nat) != 0
        ||| len > 2 * self.page_size
        ||| len / (ns.lba_size as nat) > 0xFFFF
    }

    /// Validate a transfer length against a namespace; on success return
    /// the block count, at least one and at most `0xFFFF`.
    fn check_transfer(&self, ns: &Namespace, len: usize) -> (r: Option<usize>)
        requires
            self.page_size <= 0x8000000,
        ensures
            match r {
                Some(blocks) => {
                    &&& !self.spec_bad_transfer(*ns, len as nat)
                    &&& blocks == len as int / (ns.lba_size as int)
                    &&& 1 <= blocks <= 0xFFFF
                },
                None => self.spec_bad_transfer(*ns, len as nat),
            },
    {
        if ns.lba_size == 0 || len == 0 || len % ns.lba_size != 0 || len > 2 * self.page_size {
            return None;
        }
        let blocks = len / ns.lba_size;
        if blocks > 0xFFFF {
            return None;
        }
        proof {
            if blocks == 0 {
                vstd::arithmetic::div_mod::lemma_fundamental_div_mod(
                    len as int,
                    ns.lba_size as int,
                );
            }
        }
        Some(blocks)
    }

    /// One block-I/O round as seen from outside: the NVM command — stamped
    /// with the first I/O queue's next command id — stands in that queue's
    /// submission ring at the old tail; the queue advanced one round; and
    /// its two doorbells were rung, tail first, head second.  The staging
    /// region the command pointed at has been released again.
    pub open spec fn spec_block_round(self, post: Nvme<P>, cmd: CommandSet) -> bool {
        let q0 = self.io_queues@[0];
        let q1 = post.io_queues@[0];
        let entry = cmd.spec_with_command_id(q0.id_counter);
        &&& post.io_queues@.len() == self.io_queues@.len()
        &&& spec_queue_round(q0, q1)
        &&& post.platform.dma() == self.platform.dma().insert(
            q0.sq.queue.mem.handle,
            crate::platform::splice_bytes(
                self.platform.dma()[q0.sq.queue.mem.handle],
                (q0.sq.tail as int) * 64,
                entry.spec_bytes(),
            ),
        )
        &&& post.platform.reg_writes() == self.platform.reg_writes().push(
            spec_sq_doorbell(q0.reg, q0.qid as u16, q1.sq.tail),
        ).push(spec_cq_doorbell(q0.reg, q0.qid as u16, q1.cq.head))
    }

    /// `bytes` stood staged for the device while the command ran: some
    /// fresh, page-aligned region holding exactly those bytes existed at
    /// `m`'s bus address (`mid` is the platform as the command was
    /// submitted).
    pub open spec fn spec_staged(self, m: DMAMem, mid: P, bytes: Seq<u8>) -> bool {
        &&& !self.platform.dma().contains_key(m.handle)
        &&& m.size == bytes.len()
        &&& m.phys % (self.page_size as u64) == 0
        &&& mid.dma() == self.platform.dma().insert(m.handle, bytes)
        &&& mid.reg_writes() == self.platform.reg_writes()
    }

    /// A completed block write: the caller's bytes staged at `m`, and one
    /// round of the NVM Write naming `m`'s bus address, the namespace, the
    /// starting block and the zero-based block count.
    pub open spec fn spec_block_write_round(
        self,
        post: Nvme<P>,
        ns: Namespace,
        block_start: u64,
        bytes: Seq<u8>,
        m: DMAMem,
        mid: P,
    ) -> bool {
        &&& self.spec_staged(m, mid, bytes)
        &&& self.spec_block_round(
            post,
            CommandSet::spec_nvm_cmd_write(
                ns.id,
                m.phys,
                block_start,
                (bytes.len() / (ns.lba_size as nat)) as u16,
            ),
        )
    }

    /// A completed block read: a zeroed device-writable region staged at
    /// `m`, and one round of the NVM Read naming `m`'s bus address, the
    /// namespace, the starting block and the zero-based block count.
    pub open spec fn spec_block_read_round(
        self,
        post: Nvme<P>,
        ns: Namespace,
        block_start: u64,
        len: nat,
        m: DMAMem,
        mid: P,
    ) -> bool {
        &&& self.spec_staged(m, mid, crate::platform::zero_bytes(len))
        &&& self.spec_block_round(
            post,
            CommandSet::spec_nvm_cmd_read(
                ns.id,
                m.phys,
                block_start,
                (len / (ns.lba_size as nat)) as u16,
            ),
        )
    }

    /// Write whole blocks: stage the caller's bytes in a zeroed, page-
    /// aligned DMA region, flush them for the device, and submit one NVM
    /// Write on the first I/O queue.  A bad transfer is refused as an
    /// invalid argument before anything — doorbells included — is touched.
    pub fn block_write_sync(&mut self, ns: &Namespace, block_start: u64, buff: &[u8]) -> (r:
        Result<(), Error>)
        requires
            old(self).wf(),
        ensures
            final(self).wf(),
            r == Err::<(), Error>(Error::InvalidArgument) <==> old(self).spec_bad_transfer(
                *ns,
                buff@.len(),
            ),
            old(self).spec_bad_transfer(*ns, buff@.len()) ==> *final(self) == *old(self),
            match r {
                Ok(_) => exists|m: DMAMem, mid: P| #[trigger]
                    old(self).spec_block_write_round(
                        *final(self),
                        *ns,
                        block_start,
                        buff@,
                        m,
                        mid,
                    ),
                Err(e) => match e {
                    Error::Device(w) => (w >> 1) != 0 && exists|m: DMAMem, mid: P| #[trigger]
                        old(self).spec_block_write_round(
                            *final(self),
                            *ns,
                            block_start,
                            buff@,
                            m,
                            mid,
                        ),
                    Error::NoMemory => final(self).platform.dma() == old(self).platform.dma()
                        && final(self).platform.reg_writes() == old(self).platform.reg_writes(),
                    Error::InvalidArgument | Error::Fatal | Error::Timeout => true,
                    _ => false,
                },
            },
    {
        let len = buff.len();
        let blocks = match self.check_transfer(ns, len) {
            Some(b) => b,
            None => {
                return Err(Error::InvalidArgument);
            },
        };
        let page_size = self.page_size;
        let ghost p0 = self.platform;
        let bounce = match DMAVec::zeros(&mut self.platform, len, 1, page_size, Direction::ToDevice)
         {
            Ok(b) => b,
            Err(_) => {
                return Err(Error::NoMemory);
            },
        };
        let ghost p1 = self.platform;
        self.platform.dma_write(&bounce.mem, 0, buff);
        let ghost p2 = self.platform;
        proof {
            crate::platform::lemma_splice_bytes_len(p1.dma()[bounce.mem.handle], 0, buff@);
            assert(p2.dma() =~= p0.dma().insert(bounce.mem.handle, buff@)) by {
                assert(crate::platform::splice_bytes(
                    crate::platform::zero_bytes(len as nat),
                    0,
                    buff@,
                ) =~= buff@);
            }
        }
        self.platform.flush_for_device(&bounce.mem, 0, len);
        let cmd = CommandSet::nvm_cmd_write(ns.id, bounce.bus_addr(), block_start, blocks as u16);
        let ghost p3 = self.platform;
        let mut ioq = self.io_queues.remove(0);
        let qr = ioq.command_sync(&mut self.platform, cmd);
        self.io_queues.insert(0, ioq);
        let ghost p4 = self.platform;
        bounce.free(&mut self.platform);
        proof {
            self.lemma_block_round_wf(*old(self), p0, p1, p2, p3, p4, bounce.mem.handle, buff@);
            match qr {
                Ok(_) => {
                    self.lemma_block_round_composes(*old(self), p3, bounce.mem, cmd, buff@);
                    assert(old(self).spec_block_write_round(
                        *self,
                        *ns,
                        block_start,
                        buff@,
                        bounce.mem,
                        p3,
                    ));
                },
                Err(e) => match e {
                    Error::Device(_) => {
                        self.lemma_block_round_composes(*old(self), p3, bounce.mem, cmd, buff@);
                        assert(old(self).spec_block_write_round(
                            *self,
                            *ns,
                            block_start,
                            buff@,
                            bounce.mem,
                            p3,
                        ));
                    },
                    _ => {},
                },
            }
        }
        match qr {
            Ok(_) => Ok(()),
            Err(e) => Err(e),
        }
    }

    /// One round ran against the shadow map that held the staging region
    /// (`p3`), whose region was then released: as seen from the pre-round
    /// map, the only change is the entry spliced into the first I/O
    /// queue's submission ring.
    proof fn lemma_block_round_composes(
        &self,
        pre: Nvme<P>,
        p3: P,
        m: DMAMem,
        cmd: CommandSet,
        staged: Seq<u8>,
    )
        requires
            pre.wf(),
            !pre.platform.dma().contains_key(m.handle),
            p3.dma() == pre.platform.dma().insert(m.handle, staged),
            self.io_queues@.len() == pre.io_queues@.len(),
            self.platform.dma() == p3.dma().insert(
                pre.io_queues@[0].sq.queue.mem.handle,
                crate::platform::splice_bytes(
                    p3.dma()[pre.io_queues@[0].sq.queue.mem.handle],
                    (pre.io_queues@[0].sq.tail as int) * 64,
                    cmd.spec_with_command_id(pre.io_queues@[0].id_counter).spec_bytes(),
                ),
            ).remove(m.handle),
        ensures
            self.platform.dma() == pre.platform.dma().insert(
                pre.io_queues@[0].sq.queue.mem.handle,
                crate::platform::splice_bytes(
                    pre.platform.dma()[pre.io_queues@[0].sq.queue.mem.handle],
                    (pre.io_queues@[0].sq.tail as int) * 64,
                    cmd.spec_with_command_id(pre.io_queues@[0].id_counter).spec_bytes(),
                ),
            ),
    {
        let sqh = pre.io_queues@[0].sq.queue.mem.handle;
        assert(pre.io_queues@[0].wf(&pre.platform));
        assert(sqh != m.handle);
        assert(p3.dma()[sqh] == pre.platform.dma()[sqh]);
        assert(self.platform.dma() =~= pre.platform.dma().insert(
            sqh,
            crate::platform::splice_bytes(
                pre.platform.dma()[sqh],
                (pre.io_queues@[0].sq.tail as int) * 64,
                cmd.spec_with_command_id(pre.io_queues@[0].id_counter).spec_bytes(),
            ),
        ));
    }

    /// Read whole blocks: submit one NVM Read on the first I/O queue
    /// against a zeroed, page-aligned DMA region, invalidate it, and hand
    /// its bytes back in the caller's buffer, whose length never changes.
    /// A bad transfer is refused as an invalid argument before anything is
    /// touched.
    pub fn block_read_sync(&mut self, ns: &Namespace, block_start: u64, buff: &mut Vec<u8>) -> (r:
        Result<(), Error>)
        requires
            old(self).wf(),
        ensures
            final(self).wf(),
            final(buff)@.len() == old(buff)@.len(),
            r == Err::<(), Error>(Error::InvalidArgument) <==> old(self).spec_bad_transfer(
                *ns,
                old(buff)@.len(),
            ),
            old(self).spec_bad_transfer(*ns, old(buff)@.len()) ==> *final(self) == *old(self)
                && final(buff)@ == old(buff)@,
            !(r is Ok) ==> final(buff)@ == old(buff)@,
            match r {
                Ok(_) => exists|m: DMAMem, mid: P| #[trigger]
                    old(self).spec_block_read_round(
                        *final(self),
                        *ns,
                        block_start,
                        old(buff)@.len(),
                        m,
                        mid,
                    ),
                Err(e) => match e {
                    Error::Device(w) => (w >> 1) != 0 && exists|m: DMAMem, mid: P| #[trigger]
                        old(self).spec_block_read_round(
                            *final(self),
                            *ns,
                            block_start,
                            old(buff)@.len(),
                            m,
                            mid,
                        ),
                    Error::NoMemory => final(self).platform.dma() == old(self).platform.dma()
                        && final(self).platform.reg_writes() == old(self).platform.reg_writes(),
                    Error::InvalidArgument | Error::Fatal | Error::Timeout => true,
                    _ => false,
                },
            },
    {
        let len = buff.len();
        let blocks = match self.check_transfer(ns, len) {
            Some(b) => b,
            None => {
                return Err(Error::InvalidArgument);
            },
        };
        let page_size = self.page_size;
        let ghost p0 = self.platform;
        let bounce = match DMAVec::zeros(
            &mut self.platform,
            len,
            1,
            page_size,
            Direction::FromDevice,
        ) {
            Ok(b) => b,
            Err(_) => {
                return Err(Error::NoMemory);
            },
        };
        let ghost p1 = self.platform;
        let ghost p2 = self.platform;
        let cmd = CommandSet::nvm_cmd_read(ns.id, bounce.bus_addr(), block_start, blocks as u16);
        let ghost p3 = self.platform;
        let mut ioq = self.io_queues.remove(0);
        let qr = ioq.command_sync(&mut self.platform, cmd);
        self.io_queues.insert(0, ioq);
        let ghost p4 = self.platform;
        match qr {
            Ok(_) => {},
            Err(e) => {
                bounce.free(&mut self.platform);
                proof {
                    self.lemma_block_round_wf(
                        *old(self),
                        p0,
                        p1,
                        p2,
                        p3,
                        p4,
                        bounce.mem.handle,
                        p1.dma()[bounce.mem.handle],
                    );
                    match e {
                        Error::Device(_) => {
                            self.lemma_block_round_composes(
                                *old(self),
                                p3,
                                bounce.mem,
                                cmd,
                                crate::platform::zero_bytes(len as nat),
                            );
                            assert(old(self).spec_block_read_round(
                                *self,
                                *ns,
                                block_start,
                                len as nat,
                                bounce.mem,
                                p3,
                            ));
                        },
                        _ => {},
                    }
                }
                return Err(e);
            },
        }
        self.platform.invalidate_for_host(&bounce.mem, 0, len);
        let data = self.platform.dma_read(&bounce.mem, 0, len);
        let ghost p4b = self.platform;
        bounce.free(&mut self.platform);
        *buff = data;
        proof {
            self.lemma_block_round_wf(
                *old(self),
                p0,
                p1,
                p2,
                p3,
                p4b,
                bounce.mem.handle,
                p1.dma()[bounce.mem.handle],
            );
            self.lemma_block_round_composes(
                *old(self),
                p3,
                bounce.mem,
                cmd,
                crate::platform::zero_bytes(len as nat),
            );
            assert(old(self).spec_block_read_round(
                *self,
                *ns,
                block_start,
                len as nat,
                bounce.mem,
                p3,
            ));
        }
        Ok(())
    }

    /// After one block-I/O round — bounce region allocated from `p0`,
    /// written and flushed, one command completed on the first I/O queue,
    /// bounce region freed — the controller as it now stands is fully well
    /// formed again.
    proof fn lemma_block_round_wf(
        &self,
        prev: Nvme<P>,
        p0: P,
        p1: P,
        p2: P,
        p3: P,
        p4: P,
        hb: u64,
        staged: Seq<u8>,
    )
        requires
            prev.wf(),
            prev.platform == p0,
            !p0.dma().contains_key(hb),
            p1.dma() == p0.dma().insert(hb, crate::platform::zero_bytes(staged.len())),
            p2.dma() == p1.dma().insert(
                hb,
                crate::platform::splice_bytes(p1.dma()[hb], 0, staged),
            ) || p2.dma() == p1.dma(),
            p3.dma() == p2.dma(),
            forall|h: u64| #[trigger]
                p3.dma().contains_key(h) ==> p4.dma().contains_key(h) && p4.dma()[h].len()
                    == p3.dma()[h].len(),
            self.platform.dma() == p4.dma().remove(hb),
            self.page_size == prev.page_size,
            self.sqes == prev.sqes,
            self.cqes == prev.cqes,
            self.reg == prev.reg,
            self.admin_queue == prev.admin_queue,
            self.io_queues@.len() == prev.io_queues@.len(),
            self.io_queues@[0].wf(&p4),
            self.io_queues@[0].sq.queue.mem.handle != hb,
            self.io_queues@[0].cq.queue.mem.handle != hb,
            forall|j: int|
                1 <= j < self.io_queues@.len() ==> self.io_queues@[j] == prev.io_queues@[j],
        ensures
            self.wf(),
    {
        assert forall|h: u64| #[trigger] p0.dma().contains_key(h) implies p3.dma().contains_key(h)
            && p3.dma()[h].len() == p0.dma()[h].len() by {
            if p2.dma() != p1.dma() {
                crate::platform::lemma_splice_bytes_len(p1.dma()[hb], 0, staged);
            }
        }
        assert forall|j: int| 0 <= j < self.io_queues@.len() implies (
        #[trigger] self.io_queues@[j]).wf(&self.platform) by {
            let q = self.io_queues@[j];
            if j == 0 {
                lemma_queue_wf_after_remove_other(q, p4, self.platform, hb);
            } else {
                assert(q.wf(&p0));
                assert(q.sq.queue.mem.handle != hb);
                assert(q.cq.queue.mem.handle != hb);
                crate::queue::lemma_queue_wf_after_shape_preserving(q, p0, p3);
                crate::queue::lemma_queue_wf_after_shape_preserving(q, p3, p4);
                lemma_queue_wf_after_remove_other(q, p4, self.platform, hb);
            }
        }
        let aq = self.admin_queue;
        assert(aq.wf(&p0));
        crate::queue::lemma_queue_wf_after_shape_preserving(aq, p0, p3);
        crate::queue::lemma_queue_wf_after_shape_preserving(aq, p3, p4);
        lemma_queue_wf_after_remove_other(aq, p4, self.platform, hb);
    }

    /// Read the controller's version register: major, minor, tertiary —
    /// the decoding of one version-register value.
    pub fn version(&mut self) -> (r: (usize, usize, usize))
        ensures
            exists|vs: u32| r == #[trigger] NvmeReg::spec_version_fields(vs),
            final(self).admin_queue == old(self).admin_queue,
            final(self).io_queues == old(self).io_queues,
            final(self).sqes == old(self).sqes,
            final(self).cqes == old(self).cqes,
            final(self).page_size == old(self).page_size,
            final(self).reg == old(self).reg,
            final(self).num_ns == old(self).num_ns,
            final(self).platform.dma() == old(self).platform.dma(),
            final(self).platform.reg_writes() == old(self).platform.reg_writes(),
    {
        let reg = self.reg;
        reg.version(&mut self.platform)
    }
}

} // verus!
