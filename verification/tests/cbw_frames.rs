use wasi_usb::cbw::{
    blocks_in, build_cbw, inquiry_cbw, read_10_cdb, read_block_cdb, read_capacity_cdb, scsi_cbw,
    storage_cbw, test_unit_ready_cdb, CBW_LEN, CBW_SIGNATURE,
};

#[test]
fn build_cbw_read_exact_bytes() {
    let cbw = build_cbw(0x1122_3344, 0x0001_0203, 128, true);
    let expected: [u8; 31] = [
        0x55, 0x53, 0x42, 0x43, // "USBC"
        0x44, 0x33, 0x22, 0x11, // tag
        0x00, 0x00, 0x01, 0x00, // 128 * 512 bytes
        0x80, 0x00, 10, // flags, LUN, command length
        0x28, 0x00, 0x00, 0x01, 0x02, 0x03, 0x00, 0x00, 0x80, // READ(10)
        0, 0, 0, 0, 0, 0, 0,
    ];
    assert_eq!(cbw, expected);
    assert_eq!(cbw.len(), CBW_LEN);
}

#[test]
fn build_cbw_write_direction_and_opcode() {
    let cbw = build_cbw(7, 2048, 1, false);
    assert_eq!(cbw[12], 0x00);
    assert_eq!(cbw[15], 0x2A);
    assert_eq!(&cbw[8..12], &[0x00, 0x02, 0x00, 0x00]);
    assert_eq!(&cbw[17..21], &[0x00, 0x00, 0x08, 0x00]);
    assert_eq!(&cbw[22..24], &[0x00, 0x01]);
}

#[test]
fn cbw_signature_spells_usbc() {
    assert_eq!(CBW_SIGNATURE.to_le_bytes(), *b"USBC");
}

#[test]
fn benchmark_cbw_equals_framed_read10() {
    for &(tag, lba, blocks) in &[(1u32, 0u32, 128u16), (4001, 0xDEAD_BEEF, 44), (u32::MAX, 17, 0)] {
        let cdb = read_10_cdb(lba, blocks);
        let framed = storage_cbw(tag, (blocks as u32) * 512, 0x80, &cdb);
        assert_eq!(framed, build_cbw(tag, lba, blocks, true).to_vec());
    }
}

#[test]
fn storage_cbw_pads_short_commands() {
    let cbw = storage_cbw(9, 0, 0, &test_unit_ready_cdb());
    let mut expected = vec![0x55, 0x53, 0x42, 0x43, 9, 0, 0, 0, 0, 0, 0, 0, 0, 0, 6];
    expected.extend_from_slice(&[0u8; 16]);
    assert_eq!(cbw, expected);
}

#[test]
fn storage_cbw_cuts_long_commands() {
    let command: Vec<u8> = (1u8..=20).collect();
    let cbw = storage_cbw(1, 0x200, 0x80, &command);
    assert_eq!(cbw.len(), 31);
    assert_eq!(cbw[14], 20);
    assert_eq!(&cbw[15..31], &command[..16]);
    assert_eq!(&cbw[8..12], &[0x00, 0x02, 0x00, 0x00]);
}

#[test]
fn storage_cbw_empty_command() {
    let cbw = storage_cbw(0x0102_0304, 13, 0x80, &[]);
    assert_eq!(&cbw[..15], &[0x55, 0x53, 0x42, 0x43, 4, 3, 2, 1, 13, 0, 0, 0, 0x80, 0, 0]);
    assert!(cbw[15..].iter().all(|&b| b == 0));
}

#[test]
fn scsi_cbw_matches_storage_framing() {
    let cdb = read_block_cdb(0x10);
    let a = scsi_cbw(42, 512, true, &cdb);
    let b = storage_cbw(42, 512, 0x80, &cdb);
    assert_eq!(a, b);
    let c = scsi_cbw(43, 0, false, &[]);
    let d = storage_cbw(43, 0, 0, &[]);
    assert_eq!(c, d);
}

#[test]
fn inquiry_cbw_is_scsi_inquiry() {
    let cbw = inquiry_cbw();
    assert_eq!(cbw.to_vec(), scsi_cbw(0xFF, 36, true, &[0x12, 0, 0, 0, 0x24, 0]));
    assert_eq!(cbw[14], 6);
    assert_eq!(cbw[15], 0x12);
    assert_eq!(cbw[19], 36);
}

#[test]
fn command_blocks_exact_bytes() {
    assert_eq!(test_unit_ready_cdb(), vec![0u8; 6]);
    assert_eq!(read_capacity_cdb(), vec![0x25, 0, 0, 0, 0, 0, 0, 0, 0, 0]);
    assert_eq!(read_10_cdb(0x0102_0304, 0x0506), vec![0x28, 0, 1, 2, 3, 4, 0, 5, 6, 0]);
    assert_eq!(read_block_cdb(0x0102_0304), [0x28, 0, 1, 2, 3, 4, 0, 0, 1, 0]);
}

#[test]
fn blocks_in_counts_whole_blocks() {
    assert_eq!(blocks_in(65536), 128);
    assert_eq!(blocks_in(511), 0);
    assert_eq!(blocks_in(512), 1);
    assert_eq!(blocks_in(512 * 70000), (70000 % 65536) as u16);
}
