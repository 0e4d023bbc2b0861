//! The decisions of the two bulk benchmarks: their command lines, the
//! chunks of the throughput runs, and the round-trip statistics of the
//! latency runs.

use vstd::prelude::*;
use crate::args::{IntErrorKind, hex_spec, dec_spec, parse_unsigned, strip_hex};
use crate::storage::min_int;

verus! {

/// The kind of a failed read of a number.
pub open spec fn kind_of(r: Result<nat, IntErrorKind>) -> IntErrorKind {
    match r {
        Ok(_) => IntErrorKind::Empty,
        Err(k) => k,
    }
}

/// The value of a successful read of a number, or `default`.
pub open spec fn value_or(r: Result<nat, IntErrorKind>, default: nat) -> nat {
    match r {
        Ok(v) => v,
        Err(_) => default,
    }
}

/// The variant name used when none is given.
pub open spec fn default_variant() -> Seq<u8> {
    seq![0x72u8, 0x75, 0x73, 0x62, 0x5f, 0x6e, 0x61, 0x74, 0x69, 0x76, 0x65]
}

fn default_variant_bytes() -> (v: Vec<u8>)
    ensures
        v@ == default_variant(),
{
    let v: Vec<u8> = vec![0x72u8, 0x75, 0x73, 0x62, 0x5f, 0x6e, 0x61, 0x74, 0x69, 0x76, 0x65];
    assert(v@ =~= default_variant());
    v
}

fn clone_bytes(s: &Vec<u8>) -> (v: Vec<u8>)
    ensures
        v@ == s@,
{
    let mut v: Vec<u8> = Vec::with_capacity(s.len());
    let mut i: usize = 0;
    while i < s.len()
        invariant
            i <= s@.len(),
            v@ == s@.take(i as int),
        decreases s@.len() - i,
    {
        v.push(s[i]);
        i = i + 1;
        assert(v@ =~= s@.take(i as int));
    }
    assert(s@.take(i as int) =~= s@);
    v
}

fn hex_arg(s: &Vec<u8>, max: u64) -> (r: Result<u64, IntErrorKind>)
    ensures
        match hex_spec(s@, max as nat) {
            Ok(v) => r == Ok::<u64, IntErrorKind>(v as u64),
            Err(k) => r == Err::<u64, IntErrorKind>(k),
        },
        hex_spec(s@, max as nat) matches Ok(v) ==> v <= max,
{
    parse_unsigned(strip_hex(s.as_slice()), 16, max)
}

fn dec_arg(s: &Vec<u8>, max: u64) -> (r: Result<u64, IntErrorKind>)
    ensures
        match dec_spec(s@, max as nat) {
            Ok(v) => r == Ok::<u64, IntErrorKind>(v as u64),
            Err(k) => r == Err::<u64, IntErrorKind>(k),
        },
        dec_spec(s@, max as nat) matches Ok(v) ==> v <= max,
{
    parse_unsigned(s.as_slice(), 10, max)
}

// ── Throughput benchmark ─────────────────────────────────────────────

/// The settings of a throughput benchmark.
pub struct ThroughputConfig {
    pub vid: u16,
    pub pid: u16,
    pub iface: u8,
    pub ep_out: u8,
    pub ep_in: u8,
    pub start_lba: u32,
    pub size_mb: usize,
    pub runs: usize,
    pub variant: Vec<u8>,
}

/// Why the throughput command line was refused.
#[derive(Debug, Clone, Copy, PartialEq, Eq, Structural)]
pub enum ThroughputArgsError {
    /// Fewer than nine arguments (the program name included).
    Usage,
    Vid(IntErrorKind),
    Pid(IntErrorKind),
    Interface(IntErrorKind),
    EpOut(IntErrorKind),
    EpIn(IntErrorKind),
}

/// Reads the throughput command line `prog vid pid iface ep_out ep_in
/// start_lba size_mb runs [variant]`: ids and endpoints in hexadecimal
/// (leading "0x" skipped), the interface in decimal; a start LBA, size or
/// run count that does not read as a number falls back to 0, 1 and 10.
pub fn parse_throughput_args(args: &Vec<Vec<u8>>) -> (r: Result<ThroughputConfig, ThroughputArgsError>)
    ensures
        args@.len() < 9 <==> r == Err::<ThroughputConfig, ThroughputArgsError>(ThroughputArgsError::Usage),
        args@.len() >= 9 ==> {
            let a = args@;
            let vid = hex_spec(a[1]@, 0xFFFF);
            let pid = hex_spec(a[2]@, 0xFFFF);
            let iface = dec_spec(a[3]@, 0xFF);
            let ep_out = hex_spec(a[4]@, 0xFF);
            let ep_in = hex_spec(a[5]@, 0xFF);
            if vid is Err {
                r == Err::<ThroughputConfig, ThroughputArgsError>(ThroughputArgsError::Vid(kind_of(vid)))
            } else if pid is Err {
                r == Err::<ThroughputConfig, ThroughputArgsError>(ThroughputArgsError::Pid(kind_of(pid)))
            } else if iface is Err {
                r == Err::<ThroughputConfig, ThroughputArgsError>(ThroughputArgsError::Interface(kind_of(iface)))
            } else if ep_out is Err {
                r == Err::<ThroughputConfig, ThroughputArgsError>(ThroughputArgsError::EpOut(kind_of(ep_out)))
            } else if ep_in is Err {
                r == Err::<ThroughputConfig, ThroughputArgsError>(ThroughputArgsError::EpIn(kind_of(ep_in)))
            } else {
                r matches Ok(c) && {
                    &&& c.vid == value_or(vid, 0)
                    &&& c.pid == value_or(pid, 0)
                    &&& c.iface == value_or(iface, 0)
                    &&& c.ep_out == value_or(ep_out, 0)
                    &&& c.ep_in == value_or(ep_in, 0)
                    &&& c.start_lba == value_or(dec_spec(a[6]@, u32::MAX as nat), 0)
                    &&& c.size_mb == value_or(dec_spec(a[7]@, usize::MAX as nat), 1)
                    &&& c.runs == value_or(dec_spec(a[8]@, usize::MAX as nat), 10)
                    &&& c.variant@ == (if a.len() > 9 { a[9]@ } else { default_variant() })
                }
            }
        },
{
    if args.len() < 9 {
        return Err(ThroughputArgsError::Usage);
    }
    let vid = match hex_arg(&args[1], 0xFFFF) {
        Ok(v) => v as u16,
        Err(k) => return Err(ThroughputArgsError::Vid(k)),
    };
    let pid = match hex_arg(&args[2], 0xFFFF) {
        Ok(v) => v as u16,
        Err(k) => return Err(ThroughputArgsError::Pid(k)),
    };
    let iface = match dec_arg(&args[3], 0xFF) {
        Ok(v) => v as u8,
        Err(k) => return Err(ThroughputArgsError::Interface(k)),
    };
    let ep_out = match hex_arg(&args[4], 0xFF) {
        Ok(v) => v as u8,
        Err(k) => return Err(ThroughputArgsError::EpOut(k)),
    };
    let ep_in = match hex_arg(&args[5], 0xFF) {
        Ok(v) => v as u8,
        Err(k) => return Err(ThroughputArgsError::EpIn(k)),
    };
    let start_lba: u32 = match dec_arg(&args[6], 0xFFFF_FFFF) {
        Ok(v) => v as u32,
        Err(_) => 0,
    };
    let size_mb: usize = match dec_arg(&args[7], usize::MAX as u64) {
        Ok(v) => v as usize,
        Err(_) => 1,
    };
    let runs: usize = match dec_arg(&args[8], usize::MAX as u64) {
        Ok(v) => v as usize,
        Err(_) => 10,
    };
    let variant = if args.len() > 9 { clone_bytes(&args[9]) } else { default_variant_bytes() };
    Ok(ThroughputConfig { vid, pid, iface, ep_out, ep_in, start_lba, size_mb, runs, variant })
}

/// Number of 512-byte blocks moved per command.
pub const CHUNK_BLOCKS: usize = 128;

/// The number of 512-byte blocks in `size_mb` mebibytes.
pub fn total_blocks(size_mb: usize) -> (n: usize)
    requires
        size_mb * 1024 * 1024 <= usize::MAX,
    ensures
        n == size_mb * 2048,
{
    (size_mb * 1024 * 1024) / 512
}

/// The first tag of run `run`: runs are 2000 tags apart, starting at 1
/// (the run number taken modulo 2^32, as the benchmark's `as u32` does).
pub fn run_base_tag(run: usize) -> (t: u32)
    requires
        (run as u32) * 2000 + 1 <= u32::MAX,
    ensures
        t == (run as u32) * 2000 + 1,
{
    let r: u32 = run as u32;
    r * 2000 + 1
}

/// One command of a throughput pass.
#[derive(Debug, Clone, Copy, PartialEq, Eq, Structural)]
pub struct Chunk {
    pub lba: u32,
    pub blocks: usize,
    pub tag: u32,
}

/// Walks a pass of `total` blocks from `start_lba` in commands of at most
/// 128 blocks, each with the next tag.
pub struct ChunkCursor {
    start_lba: u32,
    total: usize,
    done: usize,
    lba: u32,
    tag: u32,
    issued: Ghost<nat>,
    first_tag: Ghost<u32>,
}

/// The mathematical state of a pass.
pub struct ChunkView {
    pub start_lba: u32,
    pub total: usize,
    /// Blocks moved so far.
    pub done: usize,
    /// LBA of the next command.
    pub lba: u32,
    /// Tag of the next command.
    pub tag: u32,
    /// Commands completed in this pass.
    pub issued: nat,
    /// Tag of the first command of the pass.
    pub first_tag: u32,
}

impl View for ChunkCursor {
    type V = ChunkView;

    closed spec fn view(&self) -> ChunkView {
        ChunkView {
            start_lba: self.start_lba,
            total: self.total,
            done: self.done,
            lba: self.lba,
            tag: self.tag,
            issued: self.issued@,
            first_tag: self.first_tag@,
        }
    }
}

impl ChunkView {
    /// After `issued` commands the pass has moved `128 * issued` blocks
    /// (capped at the total), the next LBA follows the last block moved and
    /// the tag has moved on once per command.
    pub open spec fn wf(self) -> bool {
        &&& self.done == min_int((128 * self.issued) as int, self.total as int)
        &&& self.lba == self.start_lba + self.done
        &&& self.tag == self.first_tag + self.issued
    }
}

/// Command `i` (from 0) of a pass of `total` blocks from `start_lba` whose
/// first tag is `first_tag`.
pub open spec fn chunk_at(start_lba: u32, total: usize, first_tag: u32, i: nat) -> Chunk {
    Chunk {
        lba: (start_lba + 128 * i) as u32,
        blocks: min_int(128, total - 128 * i) as usize,
        tag: (first_tag + i) as u32,
    }
}

impl ChunkCursor {
    /// A pass of `total` blocks from `start_lba` whose first command is
    /// tagged `tag`.
    pub fn new(start_lba: u32, total: usize, tag: u32) -> (c: Self)
        ensures
            c@ == (ChunkView { start_lba, total, done: 0, lba: start_lba, tag, issued: 0, first_tag: tag }),
            c@.wf(),
    {
        ChunkCursor { start_lba, total, done: 0, lba: start_lba, tag, issued: Ghost(0), first_tag: Ghost(tag) }
    }

    /// The next command of the pass, if blocks are left.
    pub fn next(&self) -> (c: Option<Chunk>)
        requires
            self@.wf(),
        ensures
            self@.done < self@.total <==> c is Some,
            c matches Some(ch) ==> ch == chunk_at(self@.start_lba, self@.total, self@.first_tag, self@.issued),
    {
        if self.done < self.total {
            let left = self.total - self.done;
            let n = if left < CHUNK_BLOCKS { left } else { CHUNK_BLOCKS };
            Some(Chunk { lba: self.lba, blocks: n, tag: self.tag })
        } else {
            None
        }
    }

    /// Moves past the command that `next` returned, after it succeeded.
    pub fn advance(&mut self)
        requires
            old(self)@.wf(),
            old(self)@.done < old(self)@.total,
            old(self)@.lba + min_int(128, old(self)@.total - old(self)@.done) <= u32::MAX,
            old(self)@.tag + 1 <= u32::MAX,
        ensures
            final(self)@.wf(),
            final(self)@ == (ChunkView {
                done: (old(self)@.done + min_int(128, old(self)@.total - old(self)@.done)) as usize,
                lba: (old(self)@.lba + min_int(128, old(self)@.total - old(self)@.done)) as u32,
                tag: (old(self)@.tag + 1) as u32,
                issued: old(self)@.issued + 1,
                ..old(self)@
            }),
    {
        let left = self.total - self.done;
        let n = if left < CHUNK_BLOCKS { left } else { CHUNK_BLOCKS };
        self.lba = self.lba + n as u32;
        self.done = self.done + n;
        self.tag = self.tag + 1;
        self.issued = Ghost(self.issued@ + 1);
    }

    /// The tag of the next command.
    pub fn tag(&self) -> (t: u32)
        ensures
            t == self@.tag,
    {
        self.tag
    }

    /// The LBA of the next command.
    pub fn lba(&self) -> (l: u32)
        ensures
            l == self@.lba,
    {
        self.lba
    }
}

/// A pass moves every block once: after `ceil(total / 128)` commands it has
/// moved exactly `total` blocks, command `i` starts where command `i - 1`
/// ended, and no command moves more than 128 blocks.
pub proof fn lemma_pass_tiles(start_lba: u32, total: usize, first_tag: u32, i: nat)
    requires
        128 * i < total,
    ensures
        chunk_at(start_lba, total, first_tag, i).blocks <= 128,
        chunk_at(start_lba, total, first_tag, i).blocks > 0,
        start_lba + 128 * (i + 1) <= u32::MAX ==>
            chunk_at(start_lba, total, first_tag, i + 1).lba == chunk_at(start_lba, total, first_tag, i).lba
                + chunk_at(start_lba, total, first_tag, i).blocks || 128 * (i + 1) >= total,
        min_int((128 * i) as int, total as int) + chunk_at(start_lba, total, first_tag, i).blocks
            == min_int((128 * (i + 1)) as int, total as int),
{
}

// ── Latency benchmark ────────────────────────────────────────────────

/// The settings of a latency benchmark.
pub struct LatencyConfig {
    pub vid: u16,
    pub pid: u16,
    pub interface: u8,
    pub ep_out: u8,
    pub ep_in: u8,
    pub size_bytes: usize,
    pub iterations: u32,
    pub variant: Vec<u8>,
}

/// Why the latency command line was refused.
#[derive(Debug, Clone, Copy, PartialEq, Eq, Structural)]
pub enum LatencyArgsError {
    /// Fewer than seven arguments (the program name included).
    Usage,
    /// An id, the interface, an endpoint or the size is not a number.
    Parse(IntErrorKind),
    /// The size is zero or not a multiple of 64 bytes.
    SizeNotMultiple { size_bytes: usize },
}

/// Default number of measured round trips.
pub const ITERATIONS: u32 = 10000;

/// Reads the latency command line `prog vid pid interface ep_out ep_in
/// size_bytes [iterations] [variant]`: ids and endpoints in hexadecimal
/// (leading "0x" skipped), the rest in decimal; an iteration count that
/// does not read falls back to 10000. The size must be a positive multiple
/// of 64 (the USB 2.0 bulk packet size).
pub fn parse_latency_args(args: &Vec<Vec<u8>>) -> (r: Result<LatencyConfig, LatencyArgsError>)
    ensures
        args@.len() < 7 <==> r == Err::<LatencyConfig, LatencyArgsError>(LatencyArgsError::Usage),
        args@.len() >= 7 ==> {
            let a = args@;
            let vid = hex_spec(a[1]@, 0xFFFF);
            let pid = hex_spec(a[2]@, 0xFFFF);
            let iface = dec_spec(a[3]@, 0xFF);
            let ep_out = hex_spec(a[4]@, 0xFF);
            let ep_in = hex_spec(a[5]@, 0xFF);
            let size = dec_spec(a[6]@, usize::MAX as nat);
            if vid is Err {
                r == Err::<LatencyConfig, LatencyArgsError>(LatencyArgsError::Parse(kind_of(vid)))
            } else if pid is Err {
                r == Err::<LatencyConfig, LatencyArgsError>(LatencyArgsError::Parse(kind_of(pid)))
            } else if iface is Err {
                r == Err::<LatencyConfig, LatencyArgsError>(LatencyArgsError::Parse(kind_of(iface)))
            } else if ep_out is Err {
                r == Err::<LatencyConfig, LatencyArgsError>(LatencyArgsError::Parse(kind_of(ep_out)))
            } else if ep_in is Err {
                r == Err::<LatencyConfig, LatencyArgsError>(LatencyArgsError::Parse(kind_of(ep_in)))
            } else if size is Err {
                r == Err::<LatencyConfig, LatencyArgsError>(LatencyArgsError::Parse(kind_of(size)))
            } else if value_or(size, 0) == 0 || value_or(size, 0) % 64 != 0 {
                r == Err::<LatencyConfig, LatencyArgsError>(
                    LatencyArgsError::SizeNotMultiple { size_bytes: value_or(size, 0) as usize })
            } else {
                r matches Ok(c) && {
                    &&& c.vid == value_or(vid, 0)
                    &&& c.pid == value_or(pid, 0)
                    &&& c.interface == value_or(iface, 0)
                    &&& c.ep_out == value_or(ep_out, 0)
                    &&& c.ep_in == value_or(ep_in, 0)
                    &&& c.size_bytes == value_or(size, 0)
                    &&& c.iterations == (if a.len() > 7 {
                        value_or(dec_spec(a[7]@, u32::MAX as nat), ITERATIONS as nat)
                    } else {
                        ITERATIONS as nat
                    })
                    &&& c.variant@ == (if a.len() > 8 { a[8]@ } else { default_variant() })
                }
            }
        },
{
    if args.len() < 7 {
        return Err(LatencyArgsError::Usage);
    }
    let vid = match hex_arg(&args[1], 0xFFFF) {
        Ok(v) => v as u16,
        Err(k) => return Err(LatencyArgsError::Parse(k)),
    };
    let pid = match hex_arg(&args[2], 0xFFFF) {
        Ok(v) => v as u16,
        Err(k) => return Err(LatencyArgsError::Parse(k)),
    };
    let interface = match dec_arg(&args[3], 0xFF) {
        Ok(v) => v as u8,
        Err(k) => return Err(LatencyArgsError::Parse(k)),
    };
    let ep_out = match hex_arg(&args[4], 0xFF) {
        Ok(v) => v as u8,
        Err(k) => return Err(LatencyArgsError::Parse(k)),
    };
    let ep_in = match hex_arg(&args[5], 0xFF) {
        Ok(v) => v as u8,
        Err(k) => return Err(LatencyArgsError::Parse(k)),
    };
    let size_bytes = match dec_arg(&args[6], usize::MAX as u64) {
        Ok(v) => v as usize,
        Err(k) => return Err(LatencyArgsError::Parse(k)),
    };
    let iterations: u32 = if args.len() > 7 {
        match dec_arg(&args[7], 0xFFFF_FFFF) {
            Ok(v) => v as u32,
            Err(_) => ITERATIONS,
        }
    } else {
        ITERATIONS
    };
    let variant = if args.len() > 8 { clone_bytes(&args[8]) } else { default_variant_bytes() };
    if size_bytes == 0 || size_bytes % 64 != 0 {
        return Err(LatencyArgsError::SizeNotMultiple { size_bytes });
    }
    Ok(LatencyConfig { vid, pid, interface, ep_out, ep_in, size_bytes, iterations, variant })
}

/// The largest duration, in nanoseconds (`u64::MAX` seconds and 999 999 999
/// nanoseconds).
pub open spec fn max_duration_nanos() -> int {
    u64::MAX * 1_000_000_000 + 999_999_999
}

/// The sum of a sequence of round-trip times.
pub open spec fn sum_nanos(s: Seq<u128>) -> int
    decreases s.len(),
{
    if s.len() == 0 { 0 } else { sum_nanos(s.drop_last()) + s.last() }
}

/// Running total, minimum and maximum of measured round-trip times, in
/// nanoseconds.
pub struct RttStats {
    count: u64,
    total: u128,
    min: Option<u128>,
    max: u128,
    samples: Ghost<Seq<u128>>,
}

impl RttStats {
    pub closed spec fn samples(&self) -> Seq<u128> {
        self.samples@
    }

    /// Total, minimum and maximum agree with the samples recorded.
    pub closed spec fn wf(&self) -> bool {
        &&& self.count == self.samples@.len()
        &&& self.total == sum_nanos(self.samples@)
        &&& self.total <= max_duration_nanos()
        &&& (self.samples@.len() == 0 <==> self.min is None)
        &&& (self.samples@.len() == 0 ==> self.max == 0)
        &&& (self.min matches Some(m) ==> (exists|i: int| 0 <= i < self.samples@.len() && self.samples@[i] == m)
                && forall|i: int| 0 <= i < self.samples@.len() ==> m <= #[trigger] self.samples@[i])
        &&& (self.samples@.len() > 0 ==> (exists|i: int| 0 <= i < self.samples@.len() && self.samples@[i] == self.max))
        &&& forall|i: int| 0 <= i < self.samples@.len() ==> #[trigger] self.samples@[i] <= self.max
    }

    pub fn new() -> (s: Self)
        ensures
            s.wf(),
            s.samples() == Seq::<u128>::empty(),
    {
        RttStats { count: 0, total: 0, min: None, max: 0, samples: Ghost(Seq::empty()) }
    }

    /// Adds one round-trip time.
    pub fn record(&mut self, rtt: u128)
        requires
            old(self).wf(),
            old(self).samples().len() < u64::MAX,
            sum_nanos(old(self).samples()) + rtt <= max_duration_nanos(),
        ensures
            final(self).wf(),
            final(self).samples() == old(self).samples().push(rtt),
    {
        let ghost old_samples = self.samples@;
        let first = self.count == 0;
        self.count = self.count + 1;
        self.total = self.total + rtt;
        self.min = match self.min {
            None => Some(rtt),
            Some(m) => if rtt < m { Some(rtt) } else { Some(m) },
        };
        if rtt > self.max || first {
            self.max = rtt;
        }
        self.samples = Ghost(old_samples.push(rtt));
        proof {
            let s = self.samples@;
            assert(s.drop_last() =~= old_samples);
            assert(s[s.len() - 1] == rtt);
            if let Some(m) = self.min {
                if m != rtt {
                    let i = choose|i: int| 0 <= i < old_samples.len() && old_samples[i] == m;
                    assert(s[i] == m);
                }
            }
            if self.max != rtt {
                let i = choose|i: int| 0 <= i < old_samples.len() && old_samples[i] == self.max;
                assert(s[i] == self.max);
            }
            assert forall|i: int| 0 <= i < s.len() implies #[trigger] s[i] <= self.max by {
                if i < old_samples.len() {
                    assert(s[i] == old_samples[i]);
                }
            }
            if let Some(m) = self.min {
                assert forall|i: int| 0 <= i < s.len() implies m <= #[trigger] s[i] by {
                    if i < old_samples.len() {
                        assert(s[i] == old_samples[i]);
                    }
                }
            }
        }
    }

    /// Number of samples.
    pub fn count(&self) -> (n: u64)
        requires
            self.wf(),
        ensures
            n == self.samples().len(),
    {
        self.count
    }

    /// Sum of the samples.
    pub fn total(&self) -> (t: u128)
        requires
            self.wf(),
        ensures
            t == sum_nanos(self.samples()),
    {
        self.total
    }

    /// The smallest sample, if any: a recorded sample no larger than any
    /// other.
    pub fn min(&self) -> (m: Option<u128>)
        requires
            self.wf(),
        ensures
            self.samples().len() == 0 <==> m is None,
            m matches Some(v) ==> (exists|i: int| 0 <= i < self.samples().len() && self.samples()[i] == v)
                && forall|i: int| 0 <= i < self.samples().len() ==> v <= #[trigger] self.samples()[i],
    {
        proof {
            if let Some(v) = self.min {
                let i = choose|i: int| 0 <= i < self.samples@.len() && self.samples@[i] == v;
                assert(self.samples()[i] == v);
            }
        }
        self.min
    }

    /// The largest sample (0 without samples): a recorded sample no smaller
    /// than any other.
    pub fn max(&self) -> (m: u128)
        requires
            self.wf(),
        ensures
            self.samples().len() == 0 ==> m == 0,
            self.samples().len() > 0 ==> exists|i: int| 0 <= i < self.samples().len() && self.samples()[i] == m,
            forall|i: int| 0 <= i < self.samples().len() ==> #[trigger] self.samples()[i] <= m,
    {
        self.max
    }
}

} // verus!
