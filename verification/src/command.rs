//! Opcodes, feature selectors, and the Identify command family.

use vstd::prelude::*;

use crate::queue::CommandSet;
use crate::wire::{read_u16_at, read_u32_at, u16_at, u32_at};
use vstd::arithmetic::power2::pow2;

verus! {

/// An NVMe command opcode byte: generic-command bit, function field and
/// data-transfer field.
#[derive(Debug, Clone, Copy, PartialEq, Eq, Structural)]
pub struct Opcode(pub u8);

impl Opcode {
    /// Compose an opcode from its three fields, as the command sets lay them
    /// out: `generic` in bit 7, `function` in bits 6:2, `data_transfer` in
    /// bits 1:0.
    pub fn new(generic: u8, function: u8, data_transfer: u8) -> (r: Opcode)
        ensures
            r.0 == ((generic << 7) | (function << 2) | data_transfer) as u8,
    {
        Opcode((generic << 7) | (function << 2) | data_transfer)
    }

    /// The opcode byte, widened for CDW0.
    pub fn as_u32(&self) -> (r: u32)
        ensures
            r == self.0 as u32,
    {
        self.0 as u32
    }

    /// Admin: Delete I/O Submission Queue.
    pub fn delete_io_sq() -> (r: Opcode)
        ensures
            r.0 == 0x00,
    {
        Opcode(0x00)
    }

    /// Admin: Create I/O Submission Queue.
    pub fn create_io_sq() -> (r: Opcode)
        ensures
            r.0 == 0x01,
    {
        Opcode(0x01)
    }

    /// Admin: Get Log Page.
    pub fn get_log_page() -> (r: Opcode)
        ensures
            r.0 == 0x02,
    {
        Opcode(0x02)
    }

    /// Admin: Delete I/O Completion Queue.
    pub fn delete_io_cq() -> (r: Opcode)
        ensures
            r.0 == 0x04,
    {
        Opcode(0x04)
    }

    /// Admin: Create I/O Completion Queue.
    pub fn create_io_cq() -> (r: Opcode)
        ensures
            r.0 == 0x05,
    {
        Opcode(0x05)
    }

    /// Admin: Identify.
    pub fn identify() -> (r: Opcode)
        ensures
            r.0 == 0x06,
    {
        Opcode(0x06)
    }

    /// Admin: Abort.
    pub fn abort() -> (r: Opcode)
        ensures
            r.0 == 0x08,
    {
        Opcode(0x08)
    }

    /// Admin: Set Features.
    pub fn set_features() -> (r: Opcode)
        ensures
            r.0 == 0x09,
    {
        Opcode(0x09)
    }

    /// Admin: Get Features.
    pub fn get_features() -> (r: Opcode)
        ensures
            r.0 == 0x0A,
    {
        Opcode(0x0A)
    }

    /// NVM command set: Flush.
    pub fn nvm_flush() -> (r: Opcode)
        ensures
            r.0 == 0x00,
    {
        Opcode(0x00)
    }

    /// NVM command set: Write.
    pub fn nvm_write() -> (r: Opcode)
        ensures
            r.0 == 0x01,
    {
        Opcode(0x01)
    }

    /// NVM command set: Read.
    pub fn nvm_read() -> (r: Opcode)
        ensures
            r.0 == 0x02,
    {
        Opcode(0x02)
    }
}

/// A Set Features / Get Features feature selector with its arguments.
#[derive(Debug, Clone, Copy, PartialEq, Eq, Structural)]
pub enum Feature {
    /// Number of I/O queues: each field is the desired count minus one.
    NumberOfQueues { nsq: u32, ncq: u32 },
    InterruptVectorConfiguration {},
}

impl Feature {
    /// The feature identifier this selector encodes to.
    pub open spec fn spec_cdw10(&self) -> u32 {
        match self {
            Feature::NumberOfQueues { .. } => 0x7,
            Feature::InterruptVectorConfiguration { .. } => 0x9,
        }
    }

    /// CDW10 of a Set Features command naming this feature.
    pub fn to_cdw10(&self) -> (r: u32)
        ensures
            r == self.spec_cdw10(),
    {
        match self {
            Feature::NumberOfQueues { .. } => 0x7,
            Feature::InterruptVectorConfiguration { .. } => 0x9,
        }
    }
}

/// The Identify command family: each member knows its CNS selector, the
/// namespace id it applies to, and how to read the 4 KiB response buffer.
pub trait Identify: Sized {
    type Output;

    /// The CNS selector written to CDW10.
    spec fn spec_cns() -> u32;

    /// The namespace id written to the command; zero where none applies.
    spec fn spec_nsid(&self) -> u32;

    /// What `parse` promises about its result.
    spec fn parse_post(data: Seq<u8>, r: Self::Output) -> bool;

    /// The CNS selector written to CDW10.
    fn cns() -> (r: u32)
        ensures
            r == Self::spec_cns(),
    ;

    /// The namespace id written to the command.
    fn nsid(&self) -> (r: u32)
        ensures
            r == self.spec_nsid(),
    ;

    /// Read the 4 KiB identify response.
    fn parse(&self, data: &[u8]) -> (r: Self::Output)
        requires
            data@.len() == 4096,
        ensures
            Self::parse_post(data@, r),
    ;
}

/// One LBA format descriptor from the identify-namespace structure: the
/// metadata bytes per block, the data size as a power-of-two exponent, and
/// the relative-performance field.
#[derive(Debug, Clone, Copy, PartialEq, Eq, Structural)]
pub struct LBAFormatDataStructure {
    pub metadata_size: u16,
    pub lba_data_size: u8,
    pub other: u8,
}

impl LBAFormatDataStructure {
    /// Low bit of the relative-performance field.
    pub fn relative_performance(&self) -> (r: bool)
        ensures
            r == (self.other & 1 > 0),
    {
        self.other & 1 > 0
    }
}

/// The `i`-th LBA format descriptor, 4 bytes at offset `128 + 4 * i` of the
/// identify-namespace structure.
pub open spec fn lba_format_at(data: Seq<u8>, i: int) -> LBAFormatDataStructure
    recommends
        0 <= i < 16,
        data.len() == 4096,
{
    LBAFormatDataStructure {
        metadata_size: u16_at(data, 128 + 4 * i),
        lba_data_size: data[128 + 4 * i + 2],
        other: data[128 + 4 * i + 3],
    }
}

/// What an identify-namespace response distils to.
#[derive(Debug, Clone, Copy, PartialEq, Eq, Structural)]
pub struct NamespaceDataStructure {
    pub namespace_size: u32,
    pub namespace_capacity: u32,
    pub namespace_nused: u32,
    /// Bytes per logical block: two to the power of the selected format's
    /// data-size exponent (zero if the exponent does not fit 32 bits).
    pub lba_size: u32,
    pub metadata_size: u32,
}

/// The meaning of an identify-namespace response: FLBAS (byte 26) selects
/// one of sixteen LBA formats by its low nibble; the block size is two to
/// the selected format's data-size exponent, and the metadata size is the
/// selected format's metadata field, in bytes.
pub open spec fn spec_parse_namespace(data: Seq<u8>) -> NamespaceDataStructure
    recommends
        data.len() == 4096,
{
    let fmt = lba_format_at(data, (data[26] & 0x0F) as int);
    NamespaceDataStructure {
        namespace_size: u32_at(data, 0),
        namespace_capacity: u32_at(data, 4),
        namespace_nused: u32_at(data, 8),
        lba_size: if fmt.lba_data_size < 32 {
            1u32 << fmt.lba_data_size
        } else {
            0
        },
        metadata_size: fmt.metadata_size as u32,
    }
}

/// Identify Namespace (CNS 0) for one namespace id.
pub struct IdentifyNamespaceDataStructure {
    pub command_set: CommandSet,
}

impl IdentifyNamespaceDataStructure {
    pub fn new(nsid: u32) -> (r: Self)
        ensures
            r.command_set == (CommandSet { nsid, ..CommandSet::spec_zero() }),
    {
        IdentifyNamespaceDataStructure { command_set: CommandSet { nsid, ..CommandSet::zero() } }
    }
}

impl Identify for IdentifyNamespaceDataStructure {
    type Output = NamespaceDataStructure;

    open spec fn spec_cns() -> u32 {
        0x0
    }

    open spec fn spec_nsid(&self) -> u32 {
        self.command_set.nsid
    }

    open spec fn parse_post(data: Seq<u8>, r: NamespaceDataStructure) -> bool {
        r == spec_parse_namespace(data)
    }

    fn cns() -> u32 {
        0x0
    }

    fn nsid(&self) -> u32 {
        self.command_set.nsid
    }

    fn parse(&self, data: &[u8]) -> (r: NamespaceDataStructure) {
        let flbas = data[26];
        proof {
            assert((flbas & 0x0F) < 16) by (bit_vector);
        }
        let idx = (flbas & 0x0F) as usize;
        let base: usize = 128 + 4 * idx;
        let fmt_metadata_size = read_u16_at(data, base);
        let fmt_lba_data_size = data[base + 2];
        NamespaceDataStructure {
            namespace_size: read_u32_at(data, 0),
            namespace_capacity: read_u32_at(data, 4),
            namespace_nused: read_u32_at(data, 8),
            lba_size: if fmt_lba_data_size < 32 {
                1u32 << fmt_lba_data_size
            } else {
                0
            },
            metadata_size: fmt_metadata_size as u32,
        }
    }
}

/// The derived block size is two to the power of the data-size exponent of
/// the LBA format that FLBAS selects (whenever that exponent fits a 32-bit
/// block size at all).
pub proof fn lemma_block_size_is_power_of_format_exponent(data: Seq<u8>)
    requires
        data.len() == 4096,
        lba_format_at(data, (data[26] & 0x0F) as int).lba_data_size < 32,
    ensures
        spec_parse_namespace(data).lba_size == pow2(
            lba_format_at(data, (data[26] & 0x0F) as int).lba_data_size as nat,
        ),
{
    let n = lba_format_at(data, (data[26] & 0x0F) as int).lba_data_size;
    vstd::bits::lemma_u32_pow2_no_overflow(n as nat);
    vstd::bits::lemma_u32_shl_is_mul(1u32, n as u32);
}

/// Identify Active Namespace ID List (CNS 2).
pub struct IdentifyActiveNamespaceList {
    pub command_set: CommandSet,
}

impl IdentifyActiveNamespaceList {
    pub fn new() -> (r: Self)
        ensures
            r.command_set == CommandSet::spec_zero(),
    {
        IdentifyActiveNamespaceList { command_set: CommandSet::zero() }
    }
}

/// The 32-bit namespace-id slot `j` of an active-namespace-list response.
pub open spec fn id_slot(data: Seq<u8>, j: int) -> u32
    recommends
        data.len() == 4096,
        0 <= j < 1024,
{
    u32_at(data, 4 * j)
}

/// The namespace ids from 32-bit slot `i` onwards, up to the first zero
/// entry or the end of the 1024-entry buffer.
pub open spec fn spec_id_list_from(data: Seq<u8>, i: int) -> Seq<u32>
    recommends
        data.len() == 4096,
    decreases 1024 - i,
{
    if i < 0 || i >= 1024 {
        Seq::empty()
    } else if id_slot(data, i) == 0 {
        Seq::empty()
    } else {
        seq![id_slot(data, i)] + spec_id_list_from(data, i + 1)
    }
}

/// The meaning of an active-namespace-list response: the prefix of non-zero
/// 32-bit ids.
pub open spec fn spec_active_list(data: Seq<u8>) -> Seq<u32>
    recommends
        data.len() == 4096,
{
    spec_id_list_from(data, 0)
}

/// The id list starting at slot `i` is exactly the `k - i` entries up to the
/// first zero slot `k`.
proof fn lemma_id_list_take(data: Seq<u8>, i: int, k: int)
    requires
        0 <= i <= k <= 1024,
        forall|j: int| i <= j < k ==> #[trigger] id_slot(data, j) != 0,
        k == 1024 || id_slot(data, k) == 0,
    ensures
        spec_id_list_from(data, i) == Seq::new((k - i) as nat, |j: int| id_slot(data, i + j)),
    decreases k - i,
{
    if i == k {
        assert(spec_id_list_from(data, i) =~= Seq::new(0, |j: int| id_slot(data, i + j)));
    } else {
        assert(id_slot(data, i) != 0);
        lemma_id_list_take(data, i + 1, k);
        assert(spec_id_list_from(data, i) =~= Seq::new(
            (k - i) as nat,
            |j: int| id_slot(data, i + j),
        ));
    }
}

impl Identify for IdentifyActiveNamespaceList {
    type Output = Vec<u32>;

    open spec fn spec_cns() -> u32 {
        0x02
    }

    open spec fn spec_nsid(&self) -> u32 {
        0
    }

    open spec fn parse_post(data: Seq<u8>, r: Vec<u32>) -> bool {
        r@ == spec_active_list(data)
    }

    fn cns() -> u32 {
        0x02
    }

    fn nsid(&self) -> u32 {
        0
    }

    fn parse(&self, data: &[u8]) -> (r: Vec<u32>) {
        let mut out: Vec<u32> = Vec::new();
        let mut i: usize = 0;
        let mut stopped = false;
        while i < 1024 && !stopped
            invariant
                data@.len() == 4096,
                i <= 1024,
                out@.len() == i,
                forall|j: int|
                    0 <= j < i ==> out@[j] == #[trigger] id_slot(data@, j) && out@[j] != 0u32,
                stopped ==> i < 1024 && id_slot(data@, i as int) == 0,
            decreases 1024 - i, (if stopped { 0int } else { 1int }),
        {
            let v = read_u32_at(data, 4 * i);
            proof {
                assert(v == id_slot(data@, i as int));
            }
            if v == 0 {
                stopped = true;
            } else {
                out.push(v);
                i += 1;
                proof {
                    assert(out@[i - 1] == id_slot(data@, i - 1));
                }
            }
        }
        proof {
            lemma_id_list_take(data@, 0, i as int);
            assert(out@ =~= Seq::new((i as int - 0) as nat, |j: int| id_slot(data@, 0 + j)));
        }
        out
    }
}

/// The id list a response parses to is a function of the response bytes
/// alone, so issuing the list command twice against an unchanged controller
/// reports the same ids.  The force of the claim lives in the exactness of
/// [`Identify::parse`]'s contract (the result *is* `spec_active_list` of
/// the bytes); this lemma records the consequence for two equal responses.
pub proof fn lemma_active_list_deterministic(data1: Seq<u8>, data2: Seq<u8>)
    requires
        data1 == data2,
    ensures
        spec_active_list(data1) == spec_active_list(data2),
{
}

/// Identify Controller (CNS 1).
pub struct IdentifyController {
    pub command_set: CommandSet,
}

impl IdentifyController {
    pub fn new() -> (r: Self)
        ensures
            r.command_set == CommandSet::spec_zero(),
    {
        IdentifyController { command_set: CommandSet::zero() }
    }
}

/// The raw scalar fields of the identify-controller structure.  The
/// string-valued identification fields (serial number, model, firmware
/// revision) are not decoded.
#[derive(Debug, Clone, Copy, PartialEq, Eq, Structural)]
pub struct ControllerData {
    pub vendor_id: u16,
    pub product_id: u16,
    /// Submission-queue entry size: maximum exponent in bits 7:4, required
    /// minimum in bits 3:0.
    pub sqes: u8,
    /// Completion-queue entry size, laid out like `sqes`.
    pub cqes: u8,
    pub max_cmd: u16,
    pub number_of_namespaces: u32,
}

/// Where each scalar sits in the 4 KiB identify-controller response.
pub open spec fn spec_controller_data(data: Seq<u8>) -> ControllerData
    recommends
        data.len() == 4096,
{
    ControllerData {
        vendor_id: u16_at(data, 0),
        product_id: u16_at(data, 2),
        sqes: data[512],
        cqes: data[513],
        max_cmd: u16_at(data, 514),
        number_of_namespaces: u32_at(data, 516),
    }
}

/// The controller facts bring-up consumes, with the entry-size nibbles
/// split out.
#[derive(Debug, Clone, Copy, PartialEq, Eq, Structural)]
pub struct ControllerInfo {
    pub vendor_id: u16,
    pub product_id: u16,
    pub sqes_max: u8,
    pub sqes_min: u8,
    pub cqes_max: u8,
    pub cqes_min: u8,
    pub max_cmd: u16,
    pub number_of_namespaces: u32,
}

/// The meaning of an identify-controller response.
pub open spec fn spec_controller_info(data: Seq<u8>) -> ControllerInfo
    recommends
        data.len() == 4096,
{
    let raw = spec_controller_data(data);
    ControllerInfo {
        vendor_id: raw.vendor_id,
        product_id: raw.product_id,
        sqes_max: (raw.sqes >> 4) as u8,
        sqes_min: (raw.sqes & 0x0F) as u8,
        cqes_max: (raw.cqes >> 4) as u8,
        cqes_min: (raw.cqes & 0x0F) as u8,
        max_cmd: raw.max_cmd,
        number_of_namespaces: raw.number_of_namespaces,
    }
}

impl Identify for IdentifyController {
    type Output = ControllerInfo;

    open spec fn spec_cns() -> u32 {
        0x01
    }

    open spec fn spec_nsid(&self) -> u32 {
        0
    }

    open spec fn parse_post(data: Seq<u8>, r: ControllerInfo) -> bool {
        r == spec_controller_info(data)
    }

    fn cns() -> u32 {
        0x01
    }

    fn nsid(&self) -> u32 {
        0
    }

    fn parse(&self, data: &[u8]) -> (r: ControllerInfo) {
        let sqes = data[512];
        let cqes = data[513];
        ControllerInfo {
            vendor_id: read_u16_at(data, 0),
            product_id: read_u16_at(data, 2),
            sqes_max: sqes >> 4,
            sqes_min: sqes & 0x0F,
            cqes_max: cqes >> 4,
            cqes_min: cqes & 0x0F,
            max_cmd: read_u16_at(data, 514),
            number_of_namespaces: read_u32_at(data, 516),
        }
    }
}

} // verus!
