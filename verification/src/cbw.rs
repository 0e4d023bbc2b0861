//! Command Block Wrappers of the USB Bulk-Only Transport and the SCSI command
//! blocks that travel inside them.

use vstd::prelude::*;
use crate::bytes_buf::{bytes_mut_contents, bytes_mut_with_capacity, bytes_mut_put_u8, bytes_mut_put_u32_le, bytes_mut_put_slice, bytes_mut_put_bytes, bytes_mut_resize, bytes_mut_to_vec};
use crate::bytes_le::{le_u32, be_u32, be_u16, le_value, be_value, byte_of_u32, lemma_le_u32_value, lemma_be_u32_value, lemma_be_u16_value};

verus! {

/// `dCBWSignature`: the bytes "USBC" read as a little-endian number.
pub const CBW_SIGNATURE: u32 = 0x4342_5355;

/// Length of a Command Block Wrapper on the wire.
pub const CBW_LEN: usize = 31;

/// Logical block size that the throughput benchmark assumes.
pub const BLOCK_SIZE: u32 = 512;

/// SCSI operation codes used by the benchmarks.
pub const OP_TEST_UNIT_READY: u8 = 0x00;
pub const OP_INQUIRY: u8 = 0x12;
pub const OP_READ_CAPACITY_10: u8 = 0x25;
pub const OP_READ_10: u8 = 0x28;
pub const OP_WRITE_10: u8 = 0x2A;

/// `bmCBWFlags` value of a transfer from the device to the host.
pub const FLAG_DATA_IN: u8 = 0x80;

/// The fixed fifteen-byte header of a CBW: signature, tag, data length,
/// flags, LUN 0 and the length of the command block.
pub open spec fn cbw_header(tag: u32, data_len: u32, flags: u8, cb_len: u8) -> Seq<u8> {
    le_u32(CBW_SIGNATURE) + le_u32(tag) + le_u32(data_len) + seq![flags, 0u8, cb_len]
}

/// A sequence of `n` zero bytes.
pub open spec fn zeros(n: nat) -> Seq<u8> {
    Seq::new(n, |i: int| 0u8)
}

/// The sixteen-byte command block of a READ(10) or WRITE(10): opcode, LBA
/// (big-endian), transfer length in blocks (big-endian), zero padding.
pub open spec fn rw10_block(is_read: bool, lba: u32, num_blocks: u16) -> Seq<u8> {
    seq![if is_read { OP_READ_10 } else { OP_WRITE_10 }, 0u8] + be_u32(lba) + seq![0u8]
        + be_u16(num_blocks) + zeros(7)
}

/// The CBW that the throughput benchmark sends for one chunk of blocks.
pub open spec fn rw10_cbw(tag: u32, lba: u32, num_blocks: u16, is_read: bool) -> Seq<u8> {
    cbw_header(tag, (num_blocks * BLOCK_SIZE) as u32, if is_read { FLAG_DATA_IN } else { 0u8 }, 10)
        + rw10_block(is_read, lba, num_blocks)
}

/// The fields of a READ(10)/WRITE(10) CBW, read back from its bytes.
pub proof fn lemma_rw10_cbw_fields(tag: u32, lba: u32, num_blocks: u16, is_read: bool)
    ensures
        ({
            let c = rw10_cbw(tag, lba, num_blocks, is_read);
            &&& c.len() == 31
            &&& le_value(c, 0) == CBW_SIGNATURE
            &&& le_value(c, 4) == tag
            &&& le_value(c, 8) == num_blocks * 512
            &&& c[12] == (if is_read { 0x80u8 } else { 0u8 })
            &&& c[13] == 0
            &&& c[14] == 10
            &&& c[15] == (if is_read { 0x28u8 } else { 0x2Au8 })
            &&& c[16] == 0
            &&& c[21] == 0
            &&& forall|k: int| 24 <= k < 31 ==> #[trigger] c[k] == 0
            &&& be_value(c, 17) == lba
            &&& 0x100 * c[22] + c[23] == num_blocks
        }),
{
    let len = (num_blocks * BLOCK_SIZE) as u32;
    assert(len == num_blocks * 512);
    lemma_le_u32_value(CBW_SIGNATURE);
    lemma_le_u32_value(tag);
    lemma_le_u32_value(len);
    lemma_be_u32_value(lba);
    lemma_be_u16_value(num_blocks);
    let c = rw10_cbw(tag, lba, num_blocks, is_read);
    assert(c.subrange(0, 4) =~= le_u32(CBW_SIGNATURE));
    assert(c.subrange(4, 8) =~= le_u32(tag));
    assert(c.subrange(8, 12) =~= le_u32(len));
    assert(c.subrange(17, 21) =~= be_u32(lba));
    assert(c.subrange(22, 24) =~= be_u16(num_blocks));
}

/// Builds the 31-byte CBW of a READ(10) (`is_read`) or WRITE(10) of
/// `num_blocks` blocks of 512 bytes starting at `lba`, tagged `tag`.
pub fn build_cbw(tag: u32, lba: u32, num_blocks: u16, is_read: bool) -> (cbw: [u8; 31])
    ensures
        cbw@ == rw10_cbw(tag, lba, num_blocks, is_read),
        le_value(cbw@, 0) == CBW_SIGNATURE,
        le_value(cbw@, 4) == tag,
        le_value(cbw@, 8) == num_blocks * 512,
        cbw@[12] == (if is_read { 0x80u8 } else { 0u8 }),
        cbw@[13] == 0,
        cbw@[14] == 10,
        cbw@[15] == (if is_read { 0x28u8 } else { 0x2Au8 }),
        cbw@[16] == 0,
        cbw@[21] == 0,
        forall|k: int| 24 <= k < 31 ==> #[trigger] cbw@[k] == 0,
        be_value(cbw@, 17) == lba,
        0x100 * cbw@[22] + cbw@[23] == num_blocks,
{
    let transfer_len: u32 = (num_blocks as u32) * BLOCK_SIZE;
    let opcode: u8 = if is_read { OP_READ_10 } else { OP_WRITE_10 };
    let flags: u8 = if is_read { FLAG_DATA_IN } else { 0 };
    let nb: u32 = num_blocks as u32;
    let cbw: [u8; 31] = [
        byte_of_u32(CBW_SIGNATURE, 0), byte_of_u32(CBW_SIGNATURE, 1),
        byte_of_u32(CBW_SIGNATURE, 2), byte_of_u32(CBW_SIGNATURE, 3),
        byte_of_u32(tag, 0), byte_of_u32(tag, 1), byte_of_u32(tag, 2), byte_of_u32(tag, 3),
        byte_of_u32(transfer_len, 0), byte_of_u32(transfer_len, 1),
        byte_of_u32(transfer_len, 2), byte_of_u32(transfer_len, 3),
        flags, 0, 10,
        opcode, 0,
        byte_of_u32(lba, 3), byte_of_u32(lba, 2), byte_of_u32(lba, 1), byte_of_u32(lba, 0),
        0,
        byte_of_u32(nb, 1), byte_of_u32(nb, 0),
        0, 0, 0, 0, 0, 0, 0,
    ];
    assert(cbw@ =~= rw10_cbw(tag, lba, num_blocks, is_read));
    proof {
        lemma_rw10_cbw_fields(tag, lba, num_blocks, is_read);
    }
    cbw
}

/// The CBW of length 31 whose first bytes are `raw`: zero-padded when `raw`
/// is shorter, cut off when it is longer.
pub open spec fn fit_cbw(raw: Seq<u8>) -> Seq<u8> {
    if raw.len() <= 31 {
        raw + zeros((31 - raw.len()) as nat)
    } else {
        raw.take(31)
    }
}

/// The CBW that the mass-storage driver frames around a command block:
/// header (LUN 0, command length taken modulo 256), the command block, then
/// fitted to 31 bytes.
pub open spec fn storage_cbw_bytes(tag: u32, data_len: u32, flags: u8, command: Seq<u8>) -> Seq<u8> {
    fit_cbw(cbw_header(tag, data_len, flags, (command.len() % 256) as u8) + command)
}

/// Frames `command` in a 31-byte CBW through a `BytesMut`, as the
/// mass-storage driver does before each command: signature, `tag`,
/// `data_len`, `flags`, LUN 0, the command's length as a byte, the command,
/// then padded with zeros or cut to 31 bytes.
pub fn storage_cbw(tag: u32, data_len: u32, flags: u8, command: &[u8]) -> (cbw: Vec<u8>)
    requires
        command@.len() + 15 <= isize::MAX,
    ensures
        cbw@ == storage_cbw_bytes(tag, data_len, flags, command@),
        cbw@.len() == 31,
{
    let mut b = bytes_mut_with_capacity(31);
    bytes_mut_put_u32_le(&mut b, CBW_SIGNATURE);
    bytes_mut_put_u32_le(&mut b, tag);
    bytes_mut_put_u32_le(&mut b, data_len);
    bytes_mut_put_u8(&mut b, flags);
    bytes_mut_put_u8(&mut b, 0);
    let cb_len: u8 = (command.len() % 256) as u8;
    bytes_mut_put_u8(&mut b, cb_len);
    bytes_mut_put_slice(&mut b, command);
    proof {
        let raw = cbw_header(tag, data_len, flags, (command@.len() % 256) as u8) + command@;
        assert(bytes_mut_contents(b) =~= raw);
    }
    bytes_mut_resize(&mut b, 31, 0);
    let v = bytes_mut_to_vec(&b);
    proof {
        let raw = cbw_header(tag, data_len, flags, (command@.len() % 256) as u8) + command@;
        assert(v@ =~= fit_cbw(raw));
    }
    v
}

/// The CBW that the single-block latency benchmark sends: header (LUN 0,
/// command length as a byte), the command block, zero-padded to 31 bytes.
pub open spec fn scsi_cbw_bytes(tag: u32, data_len: u32, direction_in: bool, command: Seq<u8>) -> Seq<u8> {
    cbw_header(tag, data_len, if direction_in { FLAG_DATA_IN } else { 0u8 }, command.len() as u8)
        + command + zeros((16 - command.len()) as nat)
}

/// Builds the 31-byte CBW of a command block of at most 16 bytes, with the
/// direction flag set for transfers to the host.
pub fn scsi_cbw(tag: u32, data_len: u32, direction_in: bool, command: &[u8]) -> (cbw: Vec<u8>)
    requires
        command@.len() <= 16,
    ensures
        cbw@ == scsi_cbw_bytes(tag, data_len, direction_in, command@),
        cbw@.len() == 31,
{
    let flags: u8 = if direction_in { FLAG_DATA_IN } else { 0 };
    let mut cbw: Vec<u8> = Vec::with_capacity(31);
    cbw.push(byte_of_u32(CBW_SIGNATURE, 0));
    cbw.push(byte_of_u32(CBW_SIGNATURE, 1));
    cbw.push(byte_of_u32(CBW_SIGNATURE, 2));
    cbw.push(byte_of_u32(CBW_SIGNATURE, 3));
    cbw.push(byte_of_u32(tag, 0));
    cbw.push(byte_of_u32(tag, 1));
    cbw.push(byte_of_u32(tag, 2));
    cbw.push(byte_of_u32(tag, 3));
    cbw.push(byte_of_u32(data_len, 0));
    cbw.push(byte_of_u32(data_len, 1));
    cbw.push(byte_of_u32(data_len, 2));
    cbw.push(byte_of_u32(data_len, 3));
    cbw.push(flags);
    cbw.push(0);
    cbw.push(command.len() as u8);
    let ghost header = cbw@;
    assert(header =~= cbw_header(tag, data_len, flags, command@.len() as u8));
    let mut i: usize = 0;
    while i < command.len()
        invariant
            i <= command@.len() <= 16,
            cbw@ == header + command@.take(i as int),
        decreases command@.len() - i,
    {
        cbw.push(command[i]);
        i = i + 1;
        assert(cbw@ =~= header + command@.take(i as int));
    }
    let ghost body = cbw@;
    assert(command@.take(i as int) =~= command@);
    while cbw.len() < 31
        invariant
            15 <= body.len() <= cbw@.len() <= 31,
            body.len() == 15 + command@.len(),
            cbw@ == body + zeros((cbw@.len() - body.len()) as nat),
        decreases 31 - cbw@.len(),
    {
        cbw.push(0);
        assert(cbw@ =~= body + zeros((cbw@.len() - body.len()) as nat));
    }
    assert(cbw@ =~= scsi_cbw_bytes(tag, data_len, direction_in, command@));
    cbw
}

/// The INQUIRY command block (allocation length 36), padded to 16 bytes.
pub open spec fn inquiry_block() -> Seq<u8> {
    seq![OP_INQUIRY, 0u8, 0u8, 0u8, 0x24u8, 0u8] + zeros(10)
}

/// Builds the CBW of the diagnostic INQUIRY: tag 0xFF, 36 bytes to the host,
/// a six-byte command block.
pub fn inquiry_cbw() -> (cbw: [u8; 31])
    ensures
        cbw@ == cbw_header(0xFF, 36, FLAG_DATA_IN, 6) + inquiry_block(),
{
    let cbw: [u8; 31] = [
        byte_of_u32(CBW_SIGNATURE, 0), byte_of_u32(CBW_SIGNATURE, 1),
        byte_of_u32(CBW_SIGNATURE, 2), byte_of_u32(CBW_SIGNATURE, 3),
        0xFF, 0, 0, 0,
        36, 0, 0, 0,
        FLAG_DATA_IN, 0, 6,
        OP_INQUIRY, 0, 0, 0, 0x24, 0,
        0, 0, 0, 0, 0, 0, 0, 0, 0, 0,
    ];
    assert(cbw@ =~= cbw_header(0xFF, 36, FLAG_DATA_IN, 6) + inquiry_block());
    cbw
}

/// The six-byte TEST UNIT READY command block.
pub fn test_unit_ready_cdb() -> (cdb: Vec<u8>)
    ensures
        cdb@ == zeros(6),
{
    let cdb: Vec<u8> = vec![OP_TEST_UNIT_READY, 0, 0, 0, 0, 0];
    assert(cdb@ =~= zeros(6));
    cdb
}

/// The ten-byte READ CAPACITY(10) command block, built through a `BytesMut`.
pub fn read_capacity_cdb() -> (cdb: Vec<u8>)
    ensures
        cdb@ == seq![OP_READ_CAPACITY_10] + zeros(9),
{
    let mut b = bytes_mut_with_capacity(10);
    bytes_mut_put_u8(&mut b, OP_READ_CAPACITY_10);
    bytes_mut_put_bytes(&mut b, 0, 9);
    let v = bytes_mut_to_vec(&b);
    assert(v@ =~= seq![OP_READ_CAPACITY_10] + zeros(9));
    v
}

/// The ten-byte READ(10) command block of `transfer_length` blocks from
/// `block_address`.
pub open spec fn read10_block(block_address: u32, transfer_length: u16) -> Seq<u8> {
    seq![OP_READ_10, 0u8] + be_u32(block_address) + seq![0u8] + be_u16(transfer_length) + seq![0u8]
}

/// Builds the READ(10) command block through a `BytesMut`, as the
/// mass-storage driver does.
pub fn read_10_cdb(block_address: u32, transfer_length: u16) -> (cdb: Vec<u8>)
    ensures
        cdb@ == read10_block(block_address, transfer_length),
        cdb@.len() == 10,
{
    let mut b = bytes_mut_with_capacity(10);
    bytes_mut_put_u8(&mut b, OP_READ_10);
    bytes_mut_put_u8(&mut b, 0);
    let addr: [u8; 4] = [
        byte_of_u32(block_address, 3), byte_of_u32(block_address, 2),
        byte_of_u32(block_address, 1), byte_of_u32(block_address, 0),
    ];
    bytes_mut_put_slice(&mut b, &addr);
    bytes_mut_put_u8(&mut b, 0);
    let len32: u32 = transfer_length as u32;
    let len: [u8; 2] = [byte_of_u32(len32, 1), byte_of_u32(len32, 0)];
    bytes_mut_put_slice(&mut b, &len);
    bytes_mut_put_u8(&mut b, 0);
    let v = bytes_mut_to_vec(&b);
    assert(v@ =~= read10_block(block_address, transfer_length));
    v
}

/// Builds the READ(10) command block of the single block at `lba`, as the
/// latency benchmark does with a zeroed ten-byte array.
pub fn read_block_cdb(lba: u32) -> (cdb: [u8; 10])
    ensures
        cdb@ == read10_block(lba, 1),
{
    let cdb: [u8; 10] = [
        OP_READ_10, 0,
        byte_of_u32(lba, 3), byte_of_u32(lba, 2), byte_of_u32(lba, 1), byte_of_u32(lba, 0),
        0, 0, 1, 0,
    ];
    assert(cdb@ =~= read10_block(lba, 1));
    cdb
}

/// The number of whole 512-byte blocks in `len` bytes, taken modulo 2^16 as
/// the benchmark's `as u16` does.
pub fn blocks_in(len: usize) -> (n: u16)
    ensures
        n == (len / 512) % 0x1_0000,
{
    let blocks: usize = len / 512;
    (blocks % 0x1_0000) as u16
}

/// The benchmark's hand-built READ(10) wrapper is, byte for byte, the one
/// that the mass-storage driver frames around the same READ(10) command
/// block.
pub proof fn lemma_benchmark_cbw_is_framed_read10(tag: u32, lba: u32, num_blocks: u16)
    ensures
        rw10_cbw(tag, lba, num_blocks, true)
            == storage_cbw_bytes(tag, (num_blocks * BLOCK_SIZE) as u32, FLAG_DATA_IN, read10_block(lba, num_blocks)),
{
    let raw = cbw_header(tag, (num_blocks * BLOCK_SIZE) as u32, FLAG_DATA_IN, (10nat % 256) as u8)
        + read10_block(lba, num_blocks);
    assert(raw.len() == 25);
    assert(rw10_cbw(tag, lba, num_blocks, true) =~= fit_cbw(raw));
}

/// For reads and writes alike, the benchmark's hand-built wrapper is the
/// one the mass-storage driver frames (LUN 0, a ten-byte command block) around
/// the READ(10) or WRITE(10) block of the same blocks: opcode, LBA and
/// block count big-endian, all other bytes zero.
pub proof fn lemma_rw10_cbw_is_framed(tag: u32, lba: u32, num_blocks: u16, is_read: bool)
    ensures
        rw10_cbw(tag, lba, num_blocks, is_read) == storage_cbw_bytes(
            tag,
            (num_blocks * 512) as u32,
            if is_read { 0x80u8 } else { 0x00u8 },
            seq![if is_read { 0x28u8 } else { 0x2Au8 }, 0u8] + be_u32(lba) + seq![0u8] + be_u16(num_blocks) + seq![0u8],
        ),
{
    let block = seq![if is_read { 0x28u8 } else { 0x2Au8 }, 0u8] + be_u32(lba) + seq![0u8] + be_u16(num_blocks) + seq![0u8];
    let raw = cbw_header(tag, (num_blocks * 512) as u32, if is_read { 0x80u8 } else { 0x00u8 }, (10nat % 256) as u8)
        + block;
    assert(raw.len() == 25);
    assert(rw10_cbw(tag, lba, num_blocks, is_read) =~= fit_cbw(raw));
}

/// For command blocks of at most 16 bytes, the latency benchmark and the
/// mass-storage driver frame the same wrapper.
pub proof fn lemma_scsi_cbw_is_framed(tag: u32, data_len: u32, direction_in: bool, command: Seq<u8>)
    requires
        command.len() <= 16,
    ensures
        scsi_cbw_bytes(tag, data_len, direction_in, command)
            == storage_cbw_bytes(tag, data_len, if direction_in { FLAG_DATA_IN } else { 0u8 }, command),
{
    assert((command.len() % 256) as u8 == command.len() as u8);
    let flags = if direction_in { FLAG_DATA_IN } else { 0u8 };
    let raw = cbw_header(tag, data_len, flags, command.len() as u8) + command;
    assert(scsi_cbw_bytes(tag, data_len, direction_in, command) =~= fit_cbw(raw));
}

} // verus!
