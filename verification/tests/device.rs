//! End-to-end scenarios against a simulated controller.
//!
//! The mock implements the platform port: DMA regions are plain byte
//! vectors with made-up bus addresses, the register window is a handful of
//! fields, and a submission-queue doorbell makes the "device" read entries
//! from the ring, execute them, and post completions with the proper phase
//! bit — exactly the contract a real controller honours.

use std::collections::HashMap;

use nvme_driver::err::Error;
use nvme_driver::platform::{Direction, Platform};
use nvme_driver::queue::CommandSet;
use nvme_driver::{Config, DMAMem, Namespace, Nvme};

#[derive(Clone, Copy)]
struct DevIoCq {
    bus: u64,
    size: u16,
    tail: u16,
    phase: bool,
}

#[derive(Clone, Copy)]
struct DevIoSq {
    bus: u64,
    size: u16,
    head: u16,
    cqid: u16,
}

struct MockNvme {
    regions: HashMap<u64, Vec<u8>>,
    region_bus: HashMap<u64, u64>,
    next_handle: u64,
    next_bus: u64,
    cap: u64,
    vs: u32,
    cc: u32,
    csts: u32,
    aqa: u32,
    asq: u64,
    acq: u64,
    admin_sq_head: u16,
    admin_cq_tail: u16,
    admin_cq_phase: bool,
    io_cqs: HashMap<u16, DevIoCq>,
    io_sqs: HashMap<u16, DevIoSq>,
    nsids: Vec<u32>,
    lba_size: usize,
    lba_count: u32,
    blocks: HashMap<(u32, u64), Vec<u8>>,
    sq_doorbells: u64,
    cq_doorbells: u64,
    received_ids: Vec<u16>,
    fail_next_status_code: Option<u16>,
    controller_sqes: u8,
    controller_cqes: u8,
    ready_on_enable: bool,
    fail_alloc: bool,
}

impl MockNvme {
    fn new() -> Self {
        MockNvme {
            regions: HashMap::new(),
            region_bus: HashMap::new(),
            next_handle: 1,
            next_bus: 0x10_0000,
            // MQES = 1023, TO = 20 (in 500 ms units), DSTRD = 0
            cap: 0x3FF | (20u64 << 24),
            vs: 0x0001_0400, // 1.4.0
            cc: 0,
            csts: 0,
            aqa: 0,
            asq: 0,
            acq: 0,
            admin_sq_head: 0,
            admin_cq_tail: 0,
            admin_cq_phase: true,
            io_cqs: HashMap::new(),
            io_sqs: HashMap::new(),
            nsids: vec![1],
            lba_size: 512,
            lba_count: 2048,
            blocks: HashMap::new(),
            sq_doorbells: 0,
            cq_doorbells: 0,
            received_ids: Vec::new(),
            fail_next_status_code: None,
            controller_sqes: 0x66,
            controller_cqes: 0x44,
            ready_on_enable: true,
            fail_alloc: false,
        }
    }

    fn bus_region(&self, bus: u64) -> (u64, usize) {
        for (h, b) in &self.region_bus {
            let size = self.regions[h].len() as u64;
            if bus >= *b && bus < *b + size {
                return (*h, (bus - *b) as usize);
            }
        }
        panic!("device touched unmapped bus address {bus:#x}");
    }

    fn bus_read(&self, bus: u64, len: usize) -> Vec<u8> {
        let (h, off) = self.bus_region(bus);
        self.regions[&h][off..off + len].to_vec()
    }

    fn bus_write(&mut self, bus: u64, data: &[u8]) {
        let (h, off) = self.bus_region(bus);
        self.regions.get_mut(&h).unwrap()[off..off + data.len()].copy_from_slice(data);
    }

    fn e32(e: &[u8], off: usize) -> u32 {
        u32::from_le_bytes([e[off], e[off + 1], e[off + 2], e[off + 3]])
    }

    fn e64(e: &[u8], off: usize) -> u64 {
        (Self::e32(e, off) as u64) | ((Self::e32(e, off + 4) as u64) << 32)
    }

    fn exec_admin(&mut self, e: &[u8]) -> (u64, u16) {
        let cdw0 = Self::e32(e, 0);
        let opcode = (cdw0 & 0xFF) as u8;
        let nsid = Self::e32(e, 4);
        let prp1 = Self::e64(e, 24);
        let cdw10 = Self::e32(e, 40);
        let cdw11 = Self::e32(e, 44);
        match opcode {
            0x06 => {
                let mut buf = vec![0u8; 4096];
                match cdw10 {
                    0x01 => {
                        buf[0..2].copy_from_slice(&0x1B36u16.to_le_bytes());
                        buf[2..4].copy_from_slice(&0x0010u16.to_le_bytes());
                        buf[512] = self.controller_sqes;
                        buf[513] = self.controller_cqes;
                        buf[514..516].copy_from_slice(&0x0400u16.to_le_bytes());
                        buf[516..520]
                            .copy_from_slice(&(self.nsids.len() as u32).to_le_bytes());
                    }
                    0x02 => {
                        let mut off: usize = 0;
                        for id in &self.nsids {
                            buf[off..off + 4].copy_from_slice(&id.to_le_bytes());
                            off += 4;
                        }
                    }
                    0x00 => {
                        if !self.nsids.contains(&nsid) {
                            return (0, 0x0B);
                        }
                        buf[0..4].copy_from_slice(&self.lba_count.to_le_bytes());
                        buf[4..8].copy_from_slice(&self.lba_count.to_le_bytes());
                        buf[25] = 1;
                        buf[26] = 0;
                        buf[130] = self.lba_size.trailing_zeros() as u8;
                    }
                    _ => return (0, 0x02),
                }
                self.bus_write(prp1, &buf);
                (0, 0)
            }
            0x09 => {
                if cdw10 == 0x07 {
                    (cdw11 as u64, 0)
                } else {
                    (0, 0x02)
                }
            }
            0x05 => {
                let qid = (cdw10 & 0xFFFF) as u16;
                let size = ((cdw10 >> 16) & 0xFFFF) as u16 + 1;
                if cdw11 & 0b10 != 0 {
                    // this driver polls; interrupts must stay off
                    return (0, 0x02);
                }
                self.io_cqs.insert(
                    qid,
                    DevIoCq {
                        bus: prp1,
                        size,
                        tail: 0,
                        phase: true,
                    },
                );
                (0, 0)
            }
            0x01 => {
                let qid = (cdw10 & 0xFFFF) as u16;
                let size = ((cdw10 >> 16) & 0xFFFF) as u16 + 1;
                let cqid = (cdw11 >> 16) as u16;
                if !self.io_cqs.contains_key(&cqid) {
                    // the completion queue must exist before its submission queue
                    return (0, 0x02);
                }
                self.io_sqs.insert(
                    qid,
                    DevIoSq {
                        bus: prp1,
                        size,
                        head: 0,
                        cqid,
                    },
                );
                (0, 0)
            }
            _ => (0, 0x01),
        }
    }

    fn exec_io(&mut self, e: &[u8]) -> (u64, u16) {
        let cdw0 = Self::e32(e, 0);
        let opcode = (cdw0 & 0xFF) as u8;
        let nsid = Self::e32(e, 4);
        let prp1 = Self::e64(e, 24);
        let slba = (Self::e32(e, 40) as u64) | ((Self::e32(e, 44) as u64) << 32);
        let nblk = (Self::e32(e, 48) & 0xFFFF) as u64 + 1;
        match opcode {
            0x01 => {
                let data = self.bus_read(prp1, (nblk as usize) * self.lba_size);
                for i in 0..nblk {
                    let s = (i as usize) * self.lba_size;
                    self.blocks
                        .insert((nsid, slba + i), data[s..s + self.lba_size].to_vec());
                }
                (0, 0)
            }
            0x02 => {
                let mut data = vec![0u8; (nblk as usize) * self.lba_size];
                for i in 0..nblk {
                    if let Some(b) = self.blocks.get(&(nsid, slba + i)) {
                        let s = (i as usize) * self.lba_size;
                        data[s..s + self.lba_size].copy_from_slice(b);
                    }
                }
                self.bus_write(prp1, &data);
                (0, 0)
            }
            _ => (0, 0x01),
        }
    }

    fn post_admin_completion(&mut self, result: u64, command_id: u16, status_code: u16) {
        let cq_size = ((self.aqa >> 16) & 0xFFF) as u16 + 1;
        let slot = self.admin_cq_tail;
        let mut entry = [0u8; 16];
        entry[0..8].copy_from_slice(&result.to_le_bytes());
        entry[8..10].copy_from_slice(&self.admin_sq_head.to_le_bytes());
        entry[12..14].copy_from_slice(&command_id.to_le_bytes());
        let status = (status_code << 1) | (self.admin_cq_phase as u16);
        entry[14..16].copy_from_slice(&status.to_le_bytes());
        let bus = self.acq + (slot as u64) * 16;
        self.bus_write(bus, &entry);
        self.admin_cq_tail = (slot + 1) % cq_size;
        if self.admin_cq_tail == 0 {
            self.admin_cq_phase = !self.admin_cq_phase;
        }
    }

    fn process_admin_doorbell(&mut self, tail: u16) {
        let sq_size = (self.aqa & 0xFFF) as u16 + 1;
        while self.admin_sq_head != tail {
            let bus = self.asq + (self.admin_sq_head as u64) * 64;
            let e = self.bus_read(bus, 64);
            let cid = (Self::e32(&e, 0) >> 16) as u16;
            self.received_ids.push(cid);
            self.admin_sq_head = (self.admin_sq_head + 1) % sq_size;
            let (result, code) = self.exec_admin(&e);
            let code = self.fail_next_status_code.take().unwrap_or(code);
            self.post_admin_completion(result, cid, code);
        }
    }

    fn process_io_doorbell(&mut self, qid: u16, tail: u16) {
        loop {
            let sq = *self.io_sqs.get(&qid).expect("doorbell for unknown io queue");
            if sq.head == tail {
                break;
            }
            let e = self.bus_read(sq.bus + (sq.head as u64) * 64, 64);
            let cid = (Self::e32(&e, 0) >> 16) as u16;
            self.received_ids.push(cid);
            let new_head = (sq.head + 1) % sq.size;
            self.io_sqs.get_mut(&qid).unwrap().head = new_head;
            let (result, code) = self.exec_io(&e);
            let code = self.fail_next_status_code.take().unwrap_or(code);
            let cq = *self.io_cqs.get(&sq.cqid).expect("io sq names unknown cq");
            let mut entry = [0u8; 16];
            entry[0..8].copy_from_slice(&result.to_le_bytes());
            entry[8..10].copy_from_slice(&new_head.to_le_bytes());
            entry[10..12].copy_from_slice(&qid.to_le_bytes());
            entry[12..14].copy_from_slice(&cid.to_le_bytes());
            let status = (code << 1) | (cq.phase as u16);
            entry[14..16].copy_from_slice(&status.to_le_bytes());
            self.bus_write(cq.bus + (cq.tail as u64) * 16, &entry);
            let cqm = self.io_cqs.get_mut(&sq.cqid).unwrap();
            cqm.tail = (cq.tail + 1) % cq.size;
            if cqm.tail == 0 {
                cqm.phase = !cqm.phase;
            }
        }
    }
}

impl Platform for MockNvme {
    fn dma_alloc(&mut self, size: usize, align: usize, _direction: Direction) -> Option<DMAMem> {
        if self.fail_alloc {
            return None;
        }
        let a = align.max(1) as u64;
        let bus = self.next_bus.div_ceil(a) * a;
        self.next_bus = bus + size as u64 + 64;
        let handle = self.next_handle;
        self.next_handle += 1;
        self.regions.insert(handle, vec![0u8; size]);
        self.region_bus.insert(handle, bus);
        Some(DMAMem {
            handle,
            phys: bus,
            size,
        })
    }

    fn dma_free(&mut self, mem: DMAMem) {
        self.regions.remove(&mem.handle);
        self.region_bus.remove(&mem.handle);
    }

    fn dma_write(&mut self, mem: &DMAMem, offset: usize, data: &[u8]) {
        let r = self.regions.get_mut(&mem.handle).expect("write to freed region");
        r[offset..offset + data.len()].copy_from_slice(data);
    }

    fn dma_read(&mut self, mem: &DMAMem, offset: usize, len: usize) -> Vec<u8> {
        self.regions[&mem.handle][offset..offset + len].to_vec()
    }

    fn flush_for_device(&mut self, _mem: &DMAMem, _offset: usize, _len: usize) {}

    fn invalidate_for_host(&mut self, _mem: &DMAMem, _offset: usize, _len: usize) {}

    fn reg_read32(&mut self, offset: u64) -> u32 {
        match offset {
            0x08 => self.vs,
            0x14 => self.cc,
            0x1C => self.csts,
            0x24 => self.aqa,
            _ => 0,
        }
    }

    fn reg_read64(&mut self, offset: u64) -> u64 {
        match offset {
            0x00 => self.cap,
            0x28 => self.asq,
            0x30 => self.acq,
            _ => 0,
        }
    }

    fn reg_write32(&mut self, offset: u64, value: u32) {
        match offset {
            0x14 => {
                self.cc = value;
                if value & 1 != 0 {
                    if self.ready_on_enable {
                        self.csts |= 1;
                    }
                } else {
                    self.csts &= !1u32;
                    self.admin_sq_head = 0;
                    self.admin_cq_tail = 0;
                    self.admin_cq_phase = true;
                    self.io_cqs.clear();
                    self.io_sqs.clear();
                }
            }
            0x24 => self.aqa = value,
            off if off >= 0x1000 => {
                // DSTRD is zero: doorbells are 4 bytes apart
                let index = (off - 0x1000) / 4;
                let qid = (index / 2) as u16;
                if index % 2 == 0 {
                    self.sq_doorbells += 1;
                    if qid == 0 {
                        self.process_admin_doorbell(value as u16);
                    } else {
                        self.process_io_doorbell(qid, value as u16);
                    }
                } else {
                    self.cq_doorbells += 1;
                }
            }
            _ => {}
        }
    }

    fn reg_write64(&mut self, offset: u64, value: u64) {
        match offset {
            0x28 => self.asq = value,
            0x30 => self.acq = value,
            _ => {}
        }
    }

    fn delay_ms(&mut self, _ms: u64) {}

    fn cpu_relax(&mut self) {}
}

fn bring_up() -> Nvme<MockNvme> {
    Nvme::new(
        MockNvme::new(),
        Config {
            page_size: 4096,
            io_queue_pair_count: 1,
        },
    )
    .expect("bring-up failed")
}

fn first_namespace(nvme: &mut Nvme<MockNvme>) -> Namespace {
    let list = nvme.namespace_list().expect("namespace_list failed");
    assert!(!list.is_empty());
    list[0]
}

#[test]
fn test_bring_up_reaches_operational() {
    let mut nvme = bring_up();
    // one I/O pair of depth 64 was created, and the controller saw
    // IOSQES = 6 and IOCQES = 4 in CC
    assert_eq!(nvme.platform.io_sqs.len(), 1);
    // one pair of depth 64: both rings
    assert_eq!(nvme.platform.io_sqs[&1].size, 64);
    assert_eq!(nvme.platform.io_cqs[&1].size, 64);
    assert_eq!((nvme.platform.cc >> 16) & 0xF, 6);
    assert_eq!((nvme.platform.cc >> 20) & 0xF, 4);
    assert_eq!(nvme.platform.cc & 1, 1);
    assert_eq!(nvme.version(), (1, 4, 0));
}

#[test]
fn test_bring_up_reconfigures_entry_sizes() {
    // a controller whose required minima differ from the initial 6/4
    // gets one disable, reconfigure, re-enable cycle
    let mut mock = MockNvme::new();
    mock.controller_sqes = 0x77;
    mock.controller_cqes = 0x55;
    let mut nvme = Nvme::new(
        mock,
        Config {
            page_size: 4096,
            io_queue_pair_count: 1,
        },
    )
    .expect("bring-up failed");
    assert_eq!((nvme.platform.cc >> 16) & 0xF, 7);
    assert_eq!((nvme.platform.cc >> 20) & 0xF, 5);
    assert_eq!(nvme.platform.io_sqs[&1].size, 128);
    assert_eq!(nvme.platform.io_cqs[&1].size, 128);
    let ns = first_namespace(&mut nvme);
    let payload = vec![0xA5u8; 512];
    nvme.block_write_sync(&ns, 3, &payload).unwrap();
    let mut back = vec![0u8; 512];
    nvme.block_read_sync(&ns, 3, &mut back).unwrap();
    assert_eq!(back, payload);
}

#[test]
fn test_zero_queue_count_rejected() {
    let r = Nvme::new(
        MockNvme::new(),
        Config {
            page_size: 4096,
            io_queue_pair_count: 0,
        },
    );
    assert!(matches!(r, Err(Error::InvalidArgument)));
}

#[test]
fn test_unsupported_page_size_rejected() {
    let r = Nvme::new(
        MockNvme::new(),
        Config {
            page_size: 5000,
            io_queue_pair_count: 1,
        },
    );
    assert!(matches!(r, Err(Error::InvalidArgument)));
}

#[test]
fn test_namespace_list_single_descriptor() {
    let mut nvme = bring_up();
    let list = nvme.namespace_list().unwrap();
    assert_eq!(list.len(), 1);
    assert_eq!(list[0].id, 1);
    assert_eq!(list[0].lba_size, 512);
    assert_eq!(list[0].lba_count, 2048);
    assert_eq!(list[0].metadata_size, 0);
}

#[test]
fn test_namespace_list_twice_identical() {
    let mut nvme = bring_up();
    let a = nvme.namespace_list().unwrap();
    let b = nvme.namespace_list().unwrap();
    assert_eq!(a, b);
}

#[test]
fn test_block_write_read_roundtrip() {
    let mut nvme = bring_up();
    let ns = first_namespace(&mut nvme);
    let mut payload = vec![0u8; 512];
    let text = b"hello world! block 0";
    payload[..text.len()].copy_from_slice(text);
    nvme.block_write_sync(&ns, 0, &payload).unwrap();
    let mut back = vec![0u8; 512];
    nvme.block_read_sync(&ns, 0, &mut back).unwrap();
    assert_eq!(back, payload);
    assert_eq!(&back[..text.len()], text);
}

#[test]
fn test_block_write_read_128_blocks() {
    let mut nvme = bring_up();
    let ns = first_namespace(&mut nvme);
    for i in 0..128u64 {
        let mut payload = vec![0u8; ns.lba_size];
        let text = format!("hello world! block {i}");
        payload[..text.len()].copy_from_slice(text.as_bytes());
        nvme.block_write_sync(&ns, i, &payload).unwrap();
    }
    for i in 0..128u64 {
        let mut back = vec![0u8; ns.lba_size];
        nvme.block_read_sync(&ns, i, &mut back).unwrap();
        let text = format!("hello world! block {i}");
        assert_eq!(&back[..text.len()], text.as_bytes());
        assert!(back[text.len()..].iter().all(|b| *b == 0));
    }
}

#[test]
fn test_transfer_of_exactly_one_block() {
    let mut nvme = bring_up();
    let ns = first_namespace(&mut nvme);
    let payload = vec![7u8; 512];
    assert!(nvme.block_write_sync(&ns, 1, &payload).is_ok());
    let short = vec![7u8; 511];
    assert!(matches!(
        nvme.block_write_sync(&ns, 1, &short),
        Err(Error::InvalidArgument)
    ));
    let mut short_read = vec![0u8; 511];
    assert!(matches!(
        nvme.block_read_sync(&ns, 1, &mut short_read),
        Err(Error::InvalidArgument)
    ));
}

#[test]
fn test_zero_length_transfer_rejected() {
    let mut nvme = bring_up();
    let ns = first_namespace(&mut nvme);
    let empty: Vec<u8> = Vec::new();
    assert!(matches!(
        nvme.block_write_sync(&ns, 0, &empty),
        Err(Error::InvalidArgument)
    ));
    let mut empty_read: Vec<u8> = Vec::new();
    assert!(matches!(
        nvme.block_read_sync(&ns, 0, &mut empty_read),
        Err(Error::InvalidArgument)
    ));
}

#[test]
fn test_oversize_buffer_rejected_without_doorbell() {
    let mut nvme = bring_up();
    let ns = first_namespace(&mut nvme);
    let sq_before = nvme.platform.sq_doorbells;
    let cq_before = nvme.platform.cq_doorbells;
    let odd = vec![1u8; 513];
    assert!(matches!(
        nvme.block_write_sync(&ns, 0, &odd),
        Err(Error::InvalidArgument)
    ));
    assert_eq!(nvme.platform.sq_doorbells, sq_before);
    assert_eq!(nvme.platform.cq_doorbells, cq_before);
}

#[test]
fn test_device_error_status_surfaced() {
    let mut nvme = bring_up();
    let ns = first_namespace(&mut nvme);
    let cq_before = nvme.platform.cq_doorbells;
    nvme.platform.fail_next_status_code = Some(1);
    let payload = vec![3u8; 512];
    let r = nvme.block_write_sync(&ns, 0, &payload);
    match r {
        Err(Error::Device(word)) => {
            // bit 1 of the raw status word is the low bit of the code
            assert_eq!(word & 0b10, 0b10);
            assert_eq!(word >> 1, 1);
        }
        other => panic!("expected a device error, got {other:?}"),
    }
    // the completion-queue head doorbell was still updated
    assert_eq!(nvme.platform.cq_doorbells, cq_before + 1);
}

#[test]
fn test_command_id_echoed_in_completion() {
    let mut nvme = bring_up();
    let next = nvme.admin_queue.id_counter;
    let cmd = CommandSet::set_features(nvme_driver::command::Feature::NumberOfQueues {
        nsq: 0,
        ncq: 0,
    });
    let comp = nvme
        .admin_queue
        .command_sync(&mut nvme.platform, cmd)
        .unwrap();
    // the id the driver stamped into CDW0 came back in the completion,
    // and the device saw exactly that id on the wire
    assert_eq!(comp.command_id, next);
    assert_eq!(*nvme.platform.received_ids.last().unwrap(), next);
}

#[test]
fn test_tail_advances_modulo_depth() {
    let mut nvme = bring_up();
    let depth = nvme.admin_queue.sq.len() as u32;
    assert_eq!(depth, 64);
    let start = nvme.admin_queue.sq.tail;
    for k in 1..=130u32 {
        let cmd = CommandSet::set_features(nvme_driver::command::Feature::NumberOfQueues {
            nsq: 0,
            ncq: 0,
        });
        nvme.admin_queue
            .command_sync(&mut nvme.platform, cmd)
            .unwrap();
        assert_eq!(nvme.admin_queue.sq.tail, (start + k) % depth);
    }
}

#[test]
fn test_phase_toggles_exactly_on_wrap() {
    let mut nvme = bring_up();
    let depth = nvme.admin_queue.cq.len() as u32;
    for _ in 0..150 {
        let head_before = nvme.admin_queue.cq.head;
        let phase_before = nvme.admin_queue.cq.phase;
        let cmd = CommandSet::set_features(nvme_driver::command::Feature::NumberOfQueues {
            nsq: 0,
            ncq: 0,
        });
        nvme.admin_queue
            .command_sync(&mut nvme.platform, cmd)
            .unwrap();
        if head_before == depth - 1 {
            assert_eq!(nvme.admin_queue.cq.head, 0);
            assert_eq!(nvme.admin_queue.cq.phase, !phase_before);
        } else {
            assert_eq!(nvme.admin_queue.cq.head, head_before + 1);
            assert_eq!(nvme.admin_queue.cq.phase, phase_before);
        }
    }
}

#[test]
fn test_controller_never_ready_times_out() {
    let mut mock = MockNvme::new();
    mock.ready_on_enable = false;
    let r = Nvme::new(
        mock,
        Config {
            page_size: 4096,
            io_queue_pair_count: 1,
        },
    );
    assert!(matches!(r, Err(Error::Timeout)));
}

#[test]
fn test_fatal_status_fails_operations() {
    let mut nvme = bring_up();
    nvme.platform.csts |= 0b10;
    assert!(matches!(nvme.namespace_list(), Err(Error::Fatal)));
    let ns = Namespace {
        id: 1,
        lba_size: 512,
        lba_count: 2048,
        metadata_size: 0,
    };
    let payload = vec![0u8; 512];
    assert!(matches!(
        nvme.block_write_sync(&ns, 0, &payload),
        Err(Error::Fatal)
    ));
}

#[test]
fn test_allocation_failure_is_out_of_memory() {
    let mut mock = MockNvme::new();
    mock.fail_alloc = true;
    let r = Nvme::new(
        mock,
        Config {
            page_size: 4096,
            io_queue_pair_count: 1,
        },
    );
    assert!(matches!(r, Err(Error::NoMemory)));
}
