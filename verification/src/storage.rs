//! The bookkeeping of the mass-storage reader: command tags, the device's
//! capacity, the byte cursor, and how a byte read becomes a READ(10) of
//! whole blocks.

use vstd::prelude::*;
use crate::bytes_le::be_value;
use crate::bytes_buf::{bytes_from_vec, bytes_get_u32, bytes_remaining};

verus! {

/// Size of the device as READ CAPACITY(10) reports it.
#[derive(Debug, Clone, Copy, PartialEq, Eq, Structural)]
pub struct DeviceCapacity {
    /// Total size in bytes.
    pub size: u64,
    /// Block size in bytes.
    pub block_length: u32,
}

impl Default for DeviceCapacity {
    fn default() -> (c: Self)
        ensures
            c.size == 0,
            c.block_length == 0,
    {
        DeviceCapacity { size: 0, block_length: 0 }
    }
}

/// The capacity of a device whose last block is `last_lba` and whose
/// blocks hold `block_len` bytes.
pub open spec fn capacity_of(last_lba: u32, block_len: u32) -> DeviceCapacity {
    DeviceCapacity { size: ((last_lba + 1) * block_len) as u64, block_length: block_len }
}

/// A capacity whose size is a whole number of blocks.
pub open spec fn capacity_wf(c: DeviceCapacity) -> bool {
    c.block_length == 0 ==> c.size == 0
}

/// Decodes the eight-byte READ CAPACITY(10) answer (last LBA, then block
/// length, both big-endian) through a `Bytes` buffer.
pub fn read_capacity_response(data: &[u8; 8]) -> (c: DeviceCapacity)
    ensures
        c == capacity_of(be_value(data@, 0) as u32, be_value(data@, 4) as u32),
        capacity_wf(c),
{
    let v = vstd::slice::slice_to_vec(data.as_slice());
    let mut buf = bytes_from_vec(v);
    let ghost all = bytes_remaining(buf);
    let last_lba = bytes_get_u32(&mut buf);
    let block_len = bytes_get_u32(&mut buf);
    assert(bytes_remaining(buf) == all.skip(4).skip(4));
    assert(be_value(all.skip(4), 0) == be_value(all, 4));
    let total_blocks: u64 = (last_lba as u64) + 1;
    assert(total_blocks * (block_len as u64) <= u64::MAX) by (nonlinear_arith)
        requires
            total_blocks <= 0x1_0000_0000,
            block_len <= 0xFFFF_FFFF,
    ;
    let size: u64 = total_blocks * (block_len as u64);
    DeviceCapacity { size, block_length: block_len }
}

/// Where a seek is measured from, with the offset.
#[derive(Debug, Clone, Copy, PartialEq, Eq, Structural)]
pub enum SeekTarget {
    Start(u64),
    End(i64),
    Current(i64),
}

/// `base + delta`, held between 0 and `u64::MAX`.
pub open spec fn saturating_offset(base: u64, delta: int) -> u64 {
    if base + delta > u64::MAX {
        u64::MAX
    } else if base + delta < 0 {
        0
    } else {
        (base + delta) as u64
    }
}

/// The cursor of the mass-storage reader after a seek: measured from the
/// start, the end of the device or the current position, saturating at the
/// ends of the `u64` range.
pub open spec fn storage_seek(position: u64, size: u64, target: SeekTarget) -> u64 {
    match target {
        SeekTarget::Start(off) => off,
        SeekTarget::End(off) => saturating_offset(size, off as int),
        SeekTarget::Current(off) => saturating_offset(position, off as int),
    }
}

/// A byte read turned into blocks: read `block_count` blocks from
/// `block_address`, then take `copy_len` bytes from `offset` on.
#[derive(Debug, Clone, Copy, PartialEq, Eq, Structural)]
pub struct BlockRead {
    pub block_address: u32,
    pub block_count: u16,
    pub offset: usize,
    pub copy_len: usize,
}

/// What a read of the device does.
#[derive(Debug, Clone, Copy, PartialEq, Eq, Structural)]
pub enum ReadDecision {
    /// The buffer is empty: nothing is read.
    Empty,
    /// The read would pass the end of the device.
    PastEnd,
    /// Fetch these blocks.
    Fetch(BlockRead),
}

/// The smaller of two numbers.
pub open spec fn min_int(a: int, b: int) -> int {
    if a <= b { a } else { b }
}

/// The blocks of a read of `len` bytes at `position`: the first block is
/// the one holding `position` and the count runs to the block holding the
/// last byte, both cut to the widths of the READ(10) fields as the driver's
/// `as` casts do.
pub open spec fn block_read_of(position: u64, len: usize, block_length: u32) -> BlockRead {
    let bl = block_length as int;
    let start = position as int;
    let end = start + len;
    let address = (start / bl) as u32;
    let count = ((end - 1) / bl - address + 1) as u16;
    let offset = (start % bl) as usize;
    let available = (count * bl) as usize;
    BlockRead {
        block_address: address,
        block_count: count,
        offset,
        copy_len: min_int(len as int, available - offset) as usize,
    }
}

/// The decision on a read of `len` bytes at `position`.
pub open spec fn read_decision(position: u64, len: usize, capacity: DeviceCapacity) -> ReadDecision {
    if len == 0 {
        ReadDecision::Empty
    } else if position + len > capacity.size {
        ReadDecision::PastEnd
    } else {
        ReadDecision::Fetch(block_read_of(position, len, capacity.block_length))
    }
}

/// The reads that the driver completes without panicking: the fetched
/// blocks hold all requested bytes after the offset.
pub open spec fn read_is_defined(position: u64, len: usize, capacity: DeviceCapacity) -> bool {
    match read_decision(position, len, capacity) {
        ReadDecision::Fetch(r) => r.offset + len <= (r.block_count * capacity.block_length) as usize,
        _ => true,
    }
}

/// The state of the mass-storage reader that its decisions depend on.
pub struct MassStorageState {
    seek_position: u64,
    capacity: DeviceCapacity,
    tag: u32,
}

/// The mathematical state of the reader.
pub struct MassStorageView {
    pub seek_position: u64,
    pub capacity: DeviceCapacity,
    pub tag: u32,
}

impl View for MassStorageState {
    type V = MassStorageView;

    closed spec fn view(&self) -> MassStorageView {
        MassStorageView { seek_position: self.seek_position, capacity: self.capacity, tag: self.tag }
    }
}

impl MassStorageState {
    /// A reader before the capacity is known: cursor 0, first tag 1.
    pub fn new() -> (s: Self)
        ensures
            s@.seek_position == 0,
            s@.capacity == (DeviceCapacity { size: 0, block_length: 0 }),
            s@.tag == 1,
            capacity_wf(s@.capacity),
    {
        MassStorageState { seek_position: 0, capacity: DeviceCapacity::default(), tag: 1 }
    }

    /// The tag for the next command; the counter moves on by one, wrapping
    /// around after `u32::MAX`.
    pub fn next_tag(&mut self) -> (t: u32)
        ensures
            t == old(self)@.tag,
            final(self)@.tag == (if old(self)@.tag == u32::MAX { 0 } else { old(self)@.tag + 1 }),
            final(self)@.seek_position == old(self)@.seek_position,
            final(self)@.capacity == old(self)@.capacity,
    {
        let t = self.tag;
        self.tag = self.tag.wrapping_add(1);
        t
    }

    /// Records the capacity that READ CAPACITY(10) reported.
    pub fn set_capacity(&mut self, capacity: DeviceCapacity)
        requires
            capacity_wf(capacity),
        ensures
            final(self)@ == (MassStorageView { capacity, ..old(self)@ }),
    {
        self.capacity = capacity;
    }

    pub fn capacity(&self) -> (c: DeviceCapacity)
        ensures
            c == self@.capacity,
    {
        self.capacity
    }

    pub fn seek_position(&self) -> (p: u64)
        ensures
            p == self@.seek_position,
    {
        self.seek_position
    }

    /// Moves the cursor; the result is the new cursor.
    pub fn seek(&mut self, target: SeekTarget) -> (p: u64)
        requires
            target != SeekTarget::End(i64::MIN),
            target != SeekTarget::Current(i64::MIN),
        ensures
            p == storage_seek(old(self)@.seek_position, old(self)@.capacity.size, target),
            final(self)@ == (MassStorageView { seek_position: p, ..old(self)@ }),
    {
        let p = match target {
            SeekTarget::Start(off) => off,
            SeekTarget::End(off) => {
                if off >= 0 {
                    self.capacity.size.saturating_add(off as u64)
                } else {
                    self.capacity.size.saturating_sub((-off) as u64)
                }
            },
            SeekTarget::Current(off) => {
                if off >= 0 {
                    self.seek_position.saturating_add(off as u64)
                } else {
                    self.seek_position.saturating_sub((-off) as u64)
                }
            },
        };
        self.seek_position = p;
        p
    }

    /// Decides how a read of `len` bytes at the cursor is served.
    pub fn plan_read(&self, len: usize) -> (d: ReadDecision)
        requires
            capacity_wf(self@.capacity),
            self@.seek_position + len <= u64::MAX,
            read_is_defined(self@.seek_position, len, self@.capacity),
        ensures
            d == read_decision(self@.seek_position, len, self@.capacity),
            d matches ReadDecision::Fetch(r) ==> r.copy_len == len,
    {
        if len == 0 {
            return ReadDecision::Empty;
        }
        let start: u64 = self.seek_position;
        let end: u64 = self.seek_position + len as u64;
        if end > self.capacity.size {
            return ReadDecision::PastEnd;
        }
        let block_len: u64 = self.capacity.block_length as u64;
        assert(block_len > 0);
        let first: u64 = start / block_len;
        let block_addr: u32 = first as u32;
        let last: u64 = (end - 1) / block_len;
        assert((block_addr as u64) <= first) by (bit_vector)
            requires block_addr == first as u32;
        assert(first <= last) by (nonlinear_arith)
            requires first == start / block_len, last == ((end - 1) as u64) / block_len, start <= end - 1, block_len > 0;
        let blocks_needed: u16 = (last - block_addr as u64 + 1) as u16;
        let offset_in_block: usize = (start % block_len) as usize;
        assert((blocks_needed as u64) * block_len <= u64::MAX) by (nonlinear_arith)
            requires blocks_needed <= 0xFFFF, block_len <= 0xFFFF_FFFF;
        let bytes_available: usize = ((blocks_needed as u64) * block_len) as usize;
        let copy_len: usize = if len <= bytes_available - offset_in_block {
            len
        } else {
            bytes_available - offset_in_block
        };
        ReadDecision::Fetch(BlockRead {
            block_address: block_addr,
            block_count: blocks_needed,
            offset: offset_in_block,
            copy_len,
        })
    }

    /// Whether a read of `len` bytes at the cursor can be served whole: the
    /// blocks that `plan_read` would fetch hold every requested byte after
    /// the offset. A read spanning 65536 blocks or more, or starting at block
    /// 2^32 or beyond, cannot be.
    pub fn read_is_servable(&self, len: usize) -> (b: bool)
        requires
            capacity_wf(self@.capacity),
            self@.seek_position + len <= u64::MAX,
        ensures
            b == read_is_defined(self@.seek_position, len, self@.capacity),
    {
        if len == 0 {
            return true;
        }
        let start: u64 = self.seek_position;
        let end: u64 = self.seek_position + len as u64;
        if end > self.capacity.size {
            return true;
        }
        let block_len: u64 = self.capacity.block_length as u64;
        let first: u64 = start / block_len;
        let block_addr: u32 = first as u32;
        let last: u64 = (end - 1) / block_len;
        assert((block_addr as u64) <= first) by (bit_vector)
            requires block_addr == first as u32;
        assert(first <= last) by (nonlinear_arith)
            requires first == start / block_len, last == ((end - 1) as u64) / block_len, start <= end - 1, block_len > 0;
        let blocks_needed: u16 = (last - block_addr as u64 + 1) as u16;
        let offset_in_block: usize = (start % block_len) as usize;
        assert((blocks_needed as u64) * block_len <= u64::MAX) by (nonlinear_arith)
            requires blocks_needed <= 0xFFFF, block_len <= 0xFFFF_FFFF;
        let bytes_available: usize = ((blocks_needed as u64) * block_len) as usize;
        len <= bytes_available && offset_in_block <= bytes_available - len
    }

    /// Moves the cursor past the `copy_len` bytes of a served read.
    pub fn finish_read(&mut self, r: BlockRead, len: usize)
        requires
            read_decision(old(self)@.seek_position, len, old(self)@.capacity) == ReadDecision::Fetch(r),
            read_is_defined(old(self)@.seek_position, len, old(self)@.capacity),
        ensures
            final(self)@ == (MassStorageView {
                seek_position: (old(self)@.seek_position + r.copy_len) as u64, ..old(self)@ }),
    {
        self.seek_position = self.seek_position + r.copy_len as u64;
    }
}

/// Copies `buf.len()` bytes of `data` from `offset` on into `buf`.
pub fn copy_window(data: &[u8], offset: usize, buf: &mut [u8])
    requires
        offset + old(buf)@.len() <= data@.len(),
    ensures
        final(buf)@ == data@.subrange(offset as int, offset + old(buf)@.len()),
{
    let n = buf.len();
    let mut i: usize = 0;
    while i < n
        invariant
            n == buf@.len(),
            offset + n <= data@.len(),
            i <= n,
            forall|k: int| 0 <= k < i ==> buf@[k] == data@[offset + k],
        decreases n - i,
    {
        assert(data@.len() == data.len());
        buf[i] = data[offset + i];
        i = i + 1;
    }
    assert(buf@ =~= data@.subrange(offset as int, offset + n));
}

/// A relative seek is undone by the opposite seek, as long as the first
/// one did not saturate at either end of the `u64` range; a seek from the
/// start lands exactly on its offset.
pub proof fn lemma_seek_round_trip(position: u64, size: u64, delta: i64, off: u64)
    requires
        delta != i64::MIN,
        0 <= position + delta <= u64::MAX,
    ensures
        storage_seek(storage_seek(position, size, SeekTarget::Current(delta)), size, SeekTarget::Current(-delta as i64))
            == position,
        storage_seek(position, size, SeekTarget::Start(off)) == off,
{
}

/// A served read gives back exactly the requested bytes of the device: when
/// the read starts below block 2^32 and `data` holds the device's bytes from
/// the first fetched block on, the bytes taken from the offset are the
/// bytes `[position, position + len)` of the device image `disk`.
pub proof fn lemma_read_returns_device_bytes(
    disk: Seq<u8>,
    position: u64,
    len: usize,
    capacity: DeviceCapacity,
    data: Seq<u8>,
)
    requires
        capacity_wf(capacity),
        len > 0,
        position + len <= capacity.size,
        (position as int) / (capacity.block_length as int) < 0x1_0000_0000,
        read_is_defined(position, len, capacity),
        ({
            let r = block_read_of(position, len, capacity.block_length);
            let base = r.block_address * capacity.block_length;
            &&& r.offset + len <= data.len()
            &&& base + data.len() <= disk.len()
            &&& forall|k: int| 0 <= k < data.len() ==> #[trigger] data[k] == disk[base + k]
        }),
    ensures
        read_decision(position, len, capacity) matches ReadDecision::Fetch(r)
            && data.subrange(r.offset as int, r.offset + len) == disk.subrange(position as int, position + len),
{
    let bl = capacity.block_length as int;
    let start = position as int;
    assert(bl > 0);
    let first = start / bl;
    assert(first * bl + start % bl == start) by (nonlinear_arith)
        requires bl > 0, first == start / bl;
    assert(0 <= start % bl < bl) by (nonlinear_arith) requires bl > 0;
    assert(0 <= first) by (nonlinear_arith) requires bl > 0, start >= 0, first == start / bl;
    let r = block_read_of(position, len, capacity.block_length);
    assert(r.block_address == first);
    assert(r.offset == start % bl);
    let base = r.block_address * capacity.block_length;
    assert(base + r.offset == start);
    assert(data.subrange(r.offset as int, r.offset + len) =~= disk.subrange(start, start + len)) by {
        assert forall|k: int| 0 <= k < len implies
            #[trigger] data.subrange(r.offset as int, r.offset + len)[k] == disk.subrange(start, start + len)[k] by {
            assert(data[r.offset + k] == disk[base + r.offset + k]);
        }
    }
}

/// When a read starts below block 2^32, spans fewer than 65536 blocks and
/// the blocks fit in memory, the fetched blocks hold exactly the requested
/// bytes: they start at or before the first byte, end at or after the last
/// one, and the whole request is copied out.
pub proof fn lemma_read_covers_request(position: u64, len: usize, capacity: DeviceCapacity)
    requires
        capacity_wf(capacity),
        len > 0,
        position + len <= capacity.size,
        (position as int) / (capacity.block_length as int) < 0x1_0000_0000,
        (position + len - 1) / (capacity.block_length as int) - (position as int) / (capacity.block_length as int) < 0xFFFF,
        ((position + len - 1) / (capacity.block_length as int) - (position as int) / (capacity.block_length as int) + 1)
            * capacity.block_length <= usize::MAX,
    ensures
        read_is_defined(position, len, capacity),
        read_decision(position, len, capacity) matches ReadDecision::Fetch(r) && {
            &&& r.block_address * capacity.block_length + r.offset == position
            &&& position + len <= (r.block_address + r.block_count) * capacity.block_length
            &&& r.copy_len == len
        },
{
    let bl = capacity.block_length as int;
    let start = position as int;
    let end = start + len;
    assert(bl > 0);
    let first = start / bl;
    let last = (end - 1) / bl;
    assert(first * bl + start % bl == start) by (nonlinear_arith)
        requires bl > 0, first == start / bl;
    assert(last * bl + (end - 1) % bl == end - 1) by (nonlinear_arith)
        requires bl > 0, last == (end - 1) / bl;
    assert(0 <= (end - 1) % bl < bl) by (nonlinear_arith) requires bl > 0;
    assert(0 <= start % bl < bl) by (nonlinear_arith) requires bl > 0;
    assert(first <= last) by (nonlinear_arith)
        requires bl > 0, first == start / bl, last == (end - 1) / bl, start <= end - 1;
    assert(0 <= first);
    let count = last - first + 1;
    assert((first as u32) as int == first);
    assert((count as u16) as int == count);
    assert(end <= (first + count) * bl) by (nonlinear_arith)
        requires last * bl + (end - 1) % bl == end - 1, (end - 1) % bl < bl, count == last - first + 1;
    assert(count * bl - start % bl >= len) by (nonlinear_arith)
        requires end <= (first + count) * bl, first * bl + start % bl == start, end == start + len;
    assert(((count * bl) as usize) as int == count * bl);
    assert(((start % bl) as usize) as int == start % bl);
}

} // verus!
