//! Command encoding, completion parsing, and identify-structure reading,
//! checked on concrete values.

use nvme_driver::command::{
    Feature, Identify, IdentifyActiveNamespaceList, IdentifyController,
    IdentifyNamespaceDataStructure, LBAFormatDataStructure, Opcode,
};
use nvme_driver::err::Error;
use nvme_driver::queue::{parse_completion, CommandSet, CompletionStatus, Submission};
use nvme_driver::registers::NvmeReg;

#[test]
fn test_opcode_values() {
    assert_eq!(Opcode::delete_io_sq().0, 0x00);
    assert_eq!(Opcode::create_io_sq().0, 0x01);
    assert_eq!(Opcode::get_log_page().0, 0x02);
    assert_eq!(Opcode::delete_io_cq().0, 0x04);
    assert_eq!(Opcode::create_io_cq().0, 0x05);
    assert_eq!(Opcode::identify().0, 0x06);
    assert_eq!(Opcode::abort().0, 0x08);
    assert_eq!(Opcode::set_features().0, 0x09);
    assert_eq!(Opcode::get_features().0, 0x0A);
    assert_eq!(Opcode::nvm_flush().0, 0x00);
    assert_eq!(Opcode::nvm_write().0, 0x01);
    assert_eq!(Opcode::nvm_read().0, 0x02);
    assert_eq!(Opcode::new(0, 1, 2).as_u32(), 0x06);
    assert_eq!(Opcode::new(0, 0b10, 0b1).as_u32(), 0x09);
}

#[test]
fn test_cdw0_from_opcode() {
    assert_eq!(
        CommandSet::cdw0_from_opcode(Opcode::identify(), 0xABCD),
        0xABCD_0006
    );
    assert_eq!(CommandSet::cdw0_from_opcode(Opcode::nvm_write(), 0), 0x01);
}

#[test]
fn test_with_command_id_replaces_high_half() {
    let c = CommandSet {
        cdw0: 0x1234_5678,
        ..CommandSet::zero()
    };
    let c2 = c.with_command_id(0x9ABC);
    assert_eq!(c2.cdw0, 0x9ABC_5678);
    assert_eq!(c2.nsid, 0);
}

#[test]
fn test_feature_to_cdw10() {
    assert_eq!(Feature::NumberOfQueues { nsq: 0, ncq: 0 }.to_cdw10(), 0x7);
    assert_eq!(Feature::InterruptVectorConfiguration {}.to_cdw10(), 0x9);
}

#[test]
fn test_set_features_encoding() {
    let c = CommandSet::set_features(Feature::NumberOfQueues { nsq: 3, ncq: 5 });
    assert_eq!(c.cdw0, 0x09);
    assert_eq!(c.cdw10, 0x07);
    assert_eq!(c.cdw11, 3 | (5 << 16));
    assert_eq!(c.nsid, 0);
    assert_eq!(c.prp1, 0);
}

#[test]
fn test_create_io_completion_queue_encoding() {
    let c = CommandSet::create_io_completion_queue(1, 16, 0xAB000, true, false, 0);
    assert_eq!(c.cdw0, 0x05);
    assert_eq!(c.prp1, 0xAB000);
    assert_eq!(c.cdw10, 1 | (15 << 16));
    assert_eq!(c.cdw11, 1);
}

#[test]
fn test_create_io_submission_queue_encoding() {
    let c = CommandSet::create_io_submission_queue(1, 64, 0xCD000, true, 0, 1, 0);
    assert_eq!(c.cdw0, 0x01);
    assert_eq!(c.prp1, 0xCD000);
    assert_eq!(c.cdw10, 1 | (63 << 16));
    assert_eq!(c.cdw11, 1 | (1 << 16));
    assert_eq!(c.cdw12, 0);
}

#[test]
fn test_nvm_command_encoding() {
    let r = CommandSet::nvm_cmd_read(1, 0x5000, 0x1_0000_0002, 8);
    assert_eq!(r.cdw0, 0x02);
    assert_eq!(r.nsid, 1);
    assert_eq!(r.prp1, 0x5000);
    assert_eq!(r.cdw10, 2);
    assert_eq!(r.cdw11, 1);
    assert_eq!(r.cdw12, 7);
    let w = CommandSet::nvm_cmd_write(2, 0x6000, 7, 1);
    assert_eq!(w.cdw0, 0x01);
    assert_eq!(w.nsid, 2);
    assert_eq!(w.cdw10, 7);
    assert_eq!(w.cdw11, 0);
    assert_eq!(w.cdw12, 0);
}

#[test]
fn test_submission_wire_layout() {
    let c = CommandSet {
        cdw0: 0,
        nsid: 0x0102_0304,
        metadata: 0,
        prp1: 0x1122_3344_5566_7788,
        cdw10: 0xAABB_CCDD,
        ..CommandSet::zero()
    };
    let c = c.with_command_id(0x1234);
    let sub = c.to_submission();
    let b = &sub.0;
    assert_eq!(b.len(), 64);
    // command id sits in bytes 2..4, little endian
    assert_eq!(b[2], 0x34);
    assert_eq!(b[3], 0x12);
    // namespace id at 4..8
    assert_eq!(&b[4..8], &[0x04, 0x03, 0x02, 0x01]);
    // PRP1 at 24..32
    assert_eq!(
        &b[24..32],
        &[0x88, 0x77, 0x66, 0x55, 0x44, 0x33, 0x22, 0x11]
    );
    // CDW10 at 40..44
    assert_eq!(&b[40..44], &[0xDD, 0xCC, 0xBB, 0xAA]);
}

#[test]
fn test_parse_completion_fields() {
    let mut b = vec![0u8; 16];
    b[0..8].copy_from_slice(&0x1122_3344_5566_7788u64.to_le_bytes());
    b[8..10].copy_from_slice(&5u16.to_le_bytes());
    b[10..12].copy_from_slice(&1u16.to_le_bytes());
    b[12..14].copy_from_slice(&0x4242u16.to_le_bytes());
    b[14..16].copy_from_slice(&((3u16 << 1) | 1).to_le_bytes());
    let c = parse_completion(&b);
    assert_eq!(c.result, 0x1122_3344_5566_7788);
    assert_eq!(c.sq_head, 5);
    assert_eq!(c.sq_id, 1);
    assert_eq!(c.command_id, 0x4242);
    assert!(c.status.phase());
    assert!(!c.status.is_success());
    assert!(CompletionStatus(0).is_success());
    assert!(!CompletionStatus(0).phase());
    assert!(CompletionStatus(1).is_success());
}

#[test]
fn test_identify_namespace_block_size_from_flbas() {
    // FLBAS low nibble selects format 2; its data-size exponent is 12.
    let mut data = vec![0u8; 4096];
    data[0..4].copy_from_slice(&1000u32.to_le_bytes());
    data[26] = 0x02;
    data[136..138].copy_from_slice(&8u16.to_le_bytes()); // LBAF2 metadata size
    data[138] = 12; // LBAF2 data size exponent
    let ns = IdentifyNamespaceDataStructure::new(1).parse(&data);
    assert_eq!(ns.namespace_size, 1000);
    assert_eq!(ns.lba_size, 1 << 12);
    assert_eq!(ns.metadata_size, 8);
}

#[test]
fn test_identify_namespace_metadata_from_format() {
    // the metadata size is the selected format's field, whatever the high
    // bits of FLBAS hold
    let mut data = vec![0u8; 4096];
    data[26] = 0x10;
    data[128..130].copy_from_slice(&16u16.to_le_bytes()); // LBAF0 metadata size
    data[130] = 9; // LBAF0 exponent: 512-byte blocks
    let ns = IdentifyNamespaceDataStructure::new(1).parse(&data);
    assert_eq!(ns.lba_size, 512);
    assert_eq!(ns.metadata_size, 16);
}

#[test]
fn test_identify_namespace_oversized_exponent() {
    // an exponent that does not fit a 32-bit block size comes out as zero
    let mut data = vec![0u8; 4096];
    data[130] = 40;
    let ns = IdentifyNamespaceDataStructure::new(1).parse(&data);
    assert_eq!(ns.lba_size, 0);
}

#[test]
fn test_active_namespace_list_stops_at_zero() {
    let mut data = vec![0u8; 4096];
    data[0..4].copy_from_slice(&7u32.to_le_bytes());
    data[4..8].copy_from_slice(&3u32.to_le_bytes());
    data[8..12].copy_from_slice(&9u32.to_le_bytes());
    let ids = IdentifyActiveNamespaceList::new().parse(&data);
    assert_eq!(ids, vec![7, 3, 9]);
}

#[test]
fn test_active_namespace_list_empty_and_full() {
    let data = vec![0u8; 4096];
    assert!(IdentifyActiveNamespaceList::new().parse(&data).is_empty());
    let full = vec![1u8; 4096];
    assert_eq!(IdentifyActiveNamespaceList::new().parse(&full).len(), 1024);
}

#[test]
fn test_identify_controller_parse() {
    let mut data = vec![0u8; 4096];
    data[0..2].copy_from_slice(&0x1B36u16.to_le_bytes());
    data[2..4].copy_from_slice(&0x0010u16.to_le_bytes());
    data[512] = 0x97;
    data[513] = 0x84;
    data[514..516].copy_from_slice(&0x0400u16.to_le_bytes());
    data[516..520].copy_from_slice(&5u32.to_le_bytes());
    let info = IdentifyController::new().parse(&data);
    assert_eq!(info.vendor_id, 0x1B36);
    assert_eq!(info.product_id, 0x0010);
    assert_eq!(info.sqes_max, 9);
    assert_eq!(info.sqes_min, 7);
    assert_eq!(info.cqes_max, 8);
    assert_eq!(info.cqes_min, 4);
    assert_eq!(info.max_cmd, 0x0400);
    assert_eq!(info.number_of_namespaces, 5);
}

#[test]
fn test_lba_format_relative_performance() {
    assert!(LBAFormatDataStructure {
        metadata_size: 0,
        lba_data_size: 9,
        other: 1
    }
    .relative_performance());
    assert!(!LBAFormatDataStructure {
        metadata_size: 0,
        lba_data_size: 9,
        other: 2
    }
    .relative_performance());
}

#[test]
fn test_register_field_decoding() {
    let reg = NvmeReg {
        cap: 0x3FF | (20u64 << 24) | (2u64 << 32),
    };
    assert_eq!(reg.mqes(), 1023);
    assert_eq!(reg.timeout_units(), 20);
    assert_eq!(reg.dstrd(), 2);
    assert_eq!(NvmeReg::decode_version(0x0001_0400), (1, 4, 0));
    assert_eq!(NvmeReg::decode_version(0x0002_0100), (2, 1, 0));
}

#[test]
fn test_error_values_distinguishable() {
    assert_eq!(Error::Device(3), Error::Device(3));
    assert_ne!(Error::Device(3), Error::Device(5));
    assert_ne!(Error::Fatal, Error::Timeout);
    assert_ne!(Error::NoMemory, Error::InvalidArgument);
}
