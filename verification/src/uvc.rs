//! The UVC (USB video class) logic of the webcam guest: which device and
//! streaming endpoint to use, the probe/commit values, and the reassembly
//! of isochronous packets into MJPEG frames.

use vstd::prelude::*;
use crate::jpeg::{complete_jpeg, is_complete_jpeg};

verus! {

// ── Device and endpoint choice ───────────────────────────────────────

/// Vendor and product of the preferred camera (Logitech Brio 100).
pub const BRIO_VID: u16 = 0x046d;
pub const BRIO_PID: u16 = 0x094c;

/// A device as listed: vendor id, product id, device class.
#[derive(Debug, Clone, Copy, PartialEq, Eq, Structural)]
pub struct DeviceSummary {
    pub vendor_id: u16,
    pub product_id: u16,
    pub device_class: u8,
}

/// Device classes under which a UVC camera may appear: video (0x0E),
/// miscellaneous / interface association (0xEF), or per interface (0x00).
pub open spec fn is_uvc_candidate(d: DeviceSummary) -> bool {
    d.device_class == 0x0E || d.device_class == 0xEF || d.device_class == 0x00
}

/// The first candidate that is the preferred camera.
pub open spec fn first_brio_from(devs: Seq<DeviceSummary>, from: int) -> Option<int>
    decreases devs.len() - from,
{
    if from < 0 || from >= devs.len() {
        None
    } else if is_uvc_candidate(devs[from]) && devs[from].vendor_id == BRIO_VID && devs[from].product_id == BRIO_PID {
        Some(from)
    } else {
        first_brio_from(devs, from + 1)
    }
}

/// The candidate with number `n` (from 0) among the candidates at or after
/// `from`.
pub open spec fn nth_candidate_from(devs: Seq<DeviceSummary>, n: nat, from: int) -> Option<int>
    decreases devs.len() - from,
{
    if from < 0 || from >= devs.len() {
        None
    } else if is_uvc_candidate(devs[from]) {
        if n == 0 { Some(from) } else { nth_candidate_from(devs, (n - 1) as nat, from + 1) }
    } else {
        nth_candidate_from(devs, n, from + 1)
    }
}

/// The device the webcam guest opens: the preferred camera when it is among
/// the candidates, otherwise candidate number `index`.
pub open spec fn chosen_device(devs: Seq<DeviceSummary>, index: nat) -> Option<int> {
    match first_brio_from(devs, 0) {
        Some(i) => Some(i),
        None => nth_candidate_from(devs, index, 0),
    }
}

proof fn lemma_nth_step(devs: Seq<DeviceSummary>, n: nat, from: int)
    requires
        0 <= from < devs.len(),
        is_uvc_candidate(devs[from]),
        n > 0,
    ensures
        nth_candidate_from(devs, n, from) == nth_candidate_from(devs, (n - 1) as nat, from + 1),
{
}

/// The number of UVC candidates among the first `i` devices.
pub open spec fn candidates_before(devs: Seq<DeviceSummary>, i: int) -> nat
    decreases i,
{
    if i <= 0 {
        0
    } else {
        candidates_before(devs, i - 1) + if is_uvc_candidate(devs[i - 1]) { 1nat } else { 0nat }
    }
}

/// A UVC candidate that is the Logitech Brio 100 (046d:094c).
pub open spec fn is_brio_candidate(d: DeviceSummary) -> bool {
    is_uvc_candidate(d) && d.vendor_id == 0x046d && d.product_id == 0x094c
}

proof fn lemma_candidates_monotone(devs: Seq<DeviceSummary>, i: int, j: int)
    requires
        0 <= i <= j,
    ensures
        candidates_before(devs, i) <= candidates_before(devs, j),
    decreases j,
{
    if i < j {
        lemma_candidates_monotone(devs, i, j - 1);
    }
}

proof fn lemma_first_brio(devs: Seq<DeviceSummary>, from: int)
    requires
        0 <= from,
    ensures
        first_brio_from(devs, from) matches Some(i) ==> from <= i < devs.len() && is_brio_candidate(devs[i])
            && forall|k: int| from <= k < i ==> !is_brio_candidate(#[trigger] devs[k]),
        first_brio_from(devs, from) is None ==> forall|k: int| from <= k < devs.len() ==> !is_brio_candidate(#[trigger] devs[k]),
    decreases devs.len() - from,
{
    if from < devs.len() {
        lemma_first_brio(devs, from + 1);
    }
}

proof fn lemma_nth_candidate(devs: Seq<DeviceSummary>, m: nat, from: int, j: int)
    requires
        0 <= from,
    ensures
        nth_candidate_from(devs, m, from) matches Some(i) ==> from <= i < devs.len() && is_uvc_candidate(devs[i])
            && candidates_before(devs, i) == candidates_before(devs, from) + m,
        from <= j < devs.len() && is_uvc_candidate(devs[j]) && candidates_before(devs, j) == candidates_before(devs, from) + m
            ==> nth_candidate_from(devs, m, from) == Some(j),
    decreases devs.len() - from,
{
    if from < devs.len() {
        assert(candidates_before(devs, from + 1) == candidates_before(devs, from)
            + if is_uvc_candidate(devs[from]) { 1nat } else { 0nat });
        if j > from {
            lemma_candidates_monotone(devs, from + 1, j);
        }
        if is_uvc_candidate(devs[from]) {
            if m > 0 {
                lemma_nth_candidate(devs, (m - 1) as nat, from + 1, j);
            }
        } else {
            lemma_nth_candidate(devs, m, from + 1, j);
        }
    }
}

/// The device chosen is always a UVC candidate; it is either the Brio 100
/// (046d:094c) or the candidate with number `index`. When a Brio candidate
/// is present, the first one is chosen whatever the index; when none is,
/// candidate number `index` is chosen (here `j`, when it exists). The
/// candidates are the devices of class video (0x0E), miscellaneous (0xEF)
/// or per-interface (0x00).
pub proof fn lemma_chosen_device(devs: Seq<DeviceSummary>, index: nat, j: int)
    ensures
        forall|d: DeviceSummary| #[trigger] is_uvc_candidate(d)
            <==> (d.device_class == 0x0E || d.device_class == 0xEF || d.device_class == 0x00),
        chosen_device(devs, index) matches Some(i) ==> 0 <= i < devs.len() && is_uvc_candidate(devs[i])
            && (is_brio_candidate(devs[i]) || candidates_before(devs, i) == index),
        (exists|k: int| 0 <= k < devs.len() && is_brio_candidate(#[trigger] devs[k])) ==>
            (chosen_device(devs, index) matches Some(i) && is_brio_candidate(devs[i])
                && forall|k: int| 0 <= k < i ==> !is_brio_candidate(#[trigger] devs[k])),
        (forall|k: int| 0 <= k < devs.len() ==> !is_brio_candidate(#[trigger] devs[k]))
            && 0 <= j < devs.len() && is_uvc_candidate(devs[j]) && candidates_before(devs, j) == index
            ==> chosen_device(devs, index) == Some(j),
        (forall|k: int| 0 <= k < devs.len() ==> !is_brio_candidate(#[trigger] devs[k])) ==>
            (chosen_device(devs, index) matches Some(i) ==> candidates_before(devs, i) == index),
{
    lemma_first_brio(devs, 0);
    lemma_nth_candidate(devs, index, 0, j);
}

/// Chooses the device to open, as `chosen_device` says; `None` when there
/// is no candidate number `index` (and no preferred camera).
pub fn select_uvc_device(devs: &Vec<DeviceSummary>, index: u32) -> (r: Option<usize>)
    ensures
        match chosen_device(devs@, index as nat) {
            Some(i) => r == Some(i as usize),
            None => r is None,
        },
{
    let mut i: usize = 0;
    while i < devs.len()
        invariant
            i <= devs@.len(),
            first_brio_from(devs@, 0) == first_brio_from(devs@, i as int),
        decreases devs@.len() - i,
    {
        let d = devs[i];
        let uvc = d.device_class == 0x0E || d.device_class == 0xEF || d.device_class == 0x00;
        if uvc && d.vendor_id == BRIO_VID && d.product_id == BRIO_PID {
            return Some(i);
        }
        i = i + 1;
    }
    let mut left: u32 = index;
    let mut j: usize = 0;
    while j < devs.len()
        invariant
            j <= devs@.len(),
            first_brio_from(devs@, 0) is None,
            nth_candidate_from(devs@, index as nat, 0) == nth_candidate_from(devs@, left as nat, j as int),
        decreases devs@.len() - j,
    {
        let d = devs[j];
        let uvc = d.device_class == 0x0E || d.device_class == 0xEF || d.device_class == 0x00;
        if uvc {
            if left == 0 {
                return Some(j);
            }
            proof {
                lemma_nth_step(devs@, left as nat, j as int);
            }
            left = left - 1;
        }
        j = j + 1;
    }
    None
}

/// An endpoint of a VideoStreaming setting.
#[derive(Debug, Clone, Copy, PartialEq, Eq, Structural)]
pub struct UvcEndpoint {
    pub address: u8,
    pub attributes: u8,
    pub max_packet_size: u16,
}

/// An interface setting as the configuration descriptor lists it.
pub struct UvcInterface {
    pub number: u8,
    pub alternate_setting: u8,
    pub class: u8,
    pub subclass: u8,
    pub endpoints: Vec<UvcEndpoint>,
}

/// A streaming endpoint that could carry the video: interface, setting,
/// endpoint address and bytes per microframe.
#[derive(Debug, Clone, Copy, PartialEq, Eq, Structural)]
pub struct StreamChoice {
    pub interface: u8,
    pub alternate_setting: u8,
    pub endpoint: u8,
    pub packet_size: u16,
}

/// Bytes per microframe of an isochronous endpoint: the base packet size
/// (bits 0-10) times one plus the number of extra transactions (bits 11-12).
pub open spec fn effective_size(mps: u16) -> int {
    (mps % 0x800) * (1 + (mps / 0x800) % 4)
}

/// An isochronous IN endpoint.
pub open spec fn is_iso_in(ep: UvcEndpoint) -> bool {
    ep.address >= 0x80 && ep.attributes % 4 == 1
}

/// A VideoStreaming interface (class 0x0E, subclass 0x02).
pub open spec fn is_streaming(i: UvcInterface) -> bool {
    i.class == 0x0E && i.subclass == 0x02
}

/// The better of the best so far and a new endpoint: the new one only when
/// it carries strictly more bytes.
pub open spec fn better(best: Option<StreamChoice>, c: StreamChoice) -> Option<StreamChoice> {
    match best {
        None => Some(c),
        Some(b) => if c.packet_size > b.packet_size { Some(c) } else { Some(b) },
    }
}

/// The best choice over the endpoints `eps` of interface `i`, after `best`.
pub open spec fn best_in(best: Option<StreamChoice>, i: UvcInterface, eps: Seq<UvcEndpoint>) -> Option<StreamChoice>
    decreases eps.len(),
{
    if eps.len() == 0 {
        best
    } else {
        let prev = best_in(best, i, eps.drop_last());
        let ep = eps.last();
        if is_iso_in(ep) {
            better(prev, StreamChoice {
                interface: i.number,
                alternate_setting: i.alternate_setting,
                endpoint: ep.address,
                packet_size: effective_size(ep.max_packet_size) as u16,
            })
        } else {
            prev
        }
    }
}

/// The best choice over the interfaces `ifaces`: the first isochronous IN
/// endpoint of a VideoStreaming interface with the largest bytes per
/// microframe.
pub open spec fn best_stream(ifaces: Seq<UvcInterface>) -> Option<StreamChoice>
    decreases ifaces.len(),
{
    if ifaces.len() == 0 {
        None
    } else {
        let prev = best_stream(ifaces.drop_last());
        let i = ifaces.last();
        if is_streaming(i) { best_in(prev, i, i.endpoints@) } else { prev }
    }
}

/// Picks the streaming endpoint with the largest bandwidth, as
/// `best_stream` says.
pub fn select_stream_endpoint(ifaces: &Vec<UvcInterface>) -> (r: Option<StreamChoice>)
    ensures
        r == best_stream(ifaces@),
{
    let mut best: Option<StreamChoice> = None;
    let mut k: usize = 0;
    while k < ifaces.len()
        invariant
            k <= ifaces@.len(),
            best == best_stream(ifaces@.take(k as int)),
        decreases ifaces@.len() - k,
    {
        let iface = &ifaces[k];
        assert(ifaces@.take(k + 1).drop_last() =~= ifaces@.take(k as int));
        if iface.class == 0x0E && iface.subclass == 0x02 {
            let ghost start = best;
            let mut e: usize = 0;
            while e < iface.endpoints.len()
                invariant
                    e <= iface.endpoints@.len(),
                    best == best_in(start, *iface, iface.endpoints@.take(e as int)),
                decreases iface.endpoints@.len() - e,
            {
                let ep = iface.endpoints[e];
                assert(iface.endpoints@.take(e + 1).drop_last() =~= iface.endpoints@.take(e as int));
                let iso_in = (ep.address & 0x80) != 0 && (ep.attributes & 0x03) == 1;
                let a = ep.address;
                let t = ep.attributes;
                assert(((a & 0x80u8) != 0) == (a >= 0x80)) by (bit_vector);
                assert((t & 0x03u8) == t % 4) by (bit_vector);
                if iso_in {
                    let mps = ep.max_packet_size;
                    let base: u16 = mps & 0x7FF;
                    let extra: u16 = (mps >> 11) & 0x03;
                    assert(extra <= 3) by (bit_vector) requires extra == (mps >> 11) & 0x03;
                    let mult: u16 = 1 + extra;
                    assert(base == mps % 0x800 && mult == 1 + (mps / 0x800) % 4 && base < 0x800 && mult <= 4)
                        by (bit_vector)
                        requires base == mps & 0x7FF, extra == (mps >> 11) & 0x03, mult == 1 + extra;
                    assert(base * mult <= 0x7FF * 4) by (nonlinear_arith)
                        requires base < 0x800, mult <= 4;
                    let effective: u16 = base * mult;
                    let c = StreamChoice {
                        interface: iface.number,
                        alternate_setting: iface.alternate_setting,
                        endpoint: ep.address,
                        packet_size: effective,
                    };
                    best = match best {
                        None => Some(c),
                        Some(b) => if effective > b.packet_size { Some(c) } else { Some(b) },
                    };
                }
                e = e + 1;
            }
            assert(iface.endpoints@.take(e as int) =~= iface.endpoints@);
        }
        k = k + 1;
    }
    assert(ifaces@.take(k as int) =~= ifaces@);
    best
}

/// Fills in the MJPEG format (index 2) and the first frame size (index 1)
/// of a probe answer that is long enough to hold them.
pub fn patch_probe(probe: &mut Vec<u8>)
    ensures
        old(probe)@.len() >= 4 ==> final(probe)@ == old(probe)@.update(2, 2u8).update(3, 1u8),
        old(probe)@.len() < 4 ==> final(probe)@ == old(probe)@,
{
    if probe.len() >= 4 {
        probe.set(2, 2);
        probe.set(3, 1);
    }
}

/// `dwMaxVideoFrameSize` of a negotiated probe (little-endian at bytes
/// 18..22), or 0 when the answer is shorter.
pub fn negotiated_frame_size(negotiated: &[u8]) -> (n: u32)
    ensures
        negotiated@.len() >= 22 ==> n == crate::bytes_le::le_value(negotiated@, 18),
        negotiated@.len() < 22 ==> n == 0,
{
    if negotiated.len() >= 22 {
        crate::bytes_le::u32_from_le(negotiated[18], negotiated[19], negotiated[20], negotiated[21])
    } else {
        0
    }
}

// ── Frame size guess ─────────────────────────────────────────────────

/// Resolutions the guesser knows, largest first.
pub open spec fn known_resolutions() -> Seq<(u32, u32)> {
    seq![
        (1920u32, 1080u32), (1280, 720), (640, 480), (352, 288), (320, 240), (320, 180),
        (320, 120), (176, 144), (160, 144), (160, 120), (160, 90),
    ]
}

/// The size in bytes of an uncompressed two-bytes-per-pixel frame.
pub open spec fn frame_bytes(r: (u32, u32)) -> int {
    r.0 * r.1 * 2
}

/// `|a - b|`.
pub open spec fn dist(a: int, b: int) -> int {
    if a >= b { a - b } else { b - a }
}

/// The first known resolution, from index `i` on, whose frame size is
/// within 5% of `size`; 640x480 when none is.
pub open spec fn guess_from(size: int, i: int) -> (u32, u32)
    decreases 11 - i,
{
    if i < 0 || i >= 11 {
        (640, 480)
    } else if dist(size, frame_bytes(known_resolutions()[i])) * 20 <= frame_bytes(known_resolutions()[i]) {
        known_resolutions()[i]
    } else {
        guess_from(size, i + 1)
    }
}

/// The sizes for which the guesser's `abs_diff(..) * 20` does not overflow
/// on any resolution it tries.
pub open spec fn guess_defined_from(size: int, i: int) -> bool
    decreases 11 - i,
{
    if i < 0 || i >= 11 {
        true
    } else {
        &&& dist(size, frame_bytes(known_resolutions()[i])) * 20 <= usize::MAX
        &&& (dist(size, frame_bytes(known_resolutions()[i])) * 20 <= frame_bytes(known_resolutions()[i])
            || guess_defined_from(size, i + 1))
    }
}

/// Guesses the resolution of a frame from its size in bytes: the first
/// known resolution whose two-bytes-per-pixel size is within 5%, else
/// 640x480. The negotiated size is not used.
pub fn guess_resolution(frame_size: usize, _negotiated: u32) -> (r: (u32, u32))
    requires
        guess_defined_from(frame_size as int, 0),
    ensures
        r == guess_from(frame_size as int, 0),
{
    let known: [(u32, u32); 11] = [
        (1920, 1080), (1280, 720), (640, 480), (352, 288), (320, 240), (320, 180),
        (320, 120), (176, 144), (160, 144), (160, 120), (160, 90),
    ];
    assert(known@ =~= known_resolutions());
    let mut i: usize = 0;
    while i < 11
        invariant
            i <= 11,
            known@ == known_resolutions(),
            guess_from(frame_size as int, 0) == guess_from(frame_size as int, i as int),
            guess_defined_from(frame_size as int, i as int),
        decreases 11 - i,
    {
        let (w, h) = known[i];
        assert(w <= 1920 && h <= 1080);
        assert(w * h * 2 <= 1920 * 1080 * 2) by (nonlinear_arith)
            requires w <= 1920, h <= 1080;
        let expected: usize = (w * h * 2) as usize;
        let diff: usize = if frame_size >= expected { frame_size - expected } else { expected - frame_size };
        if diff * 20 <= expected {
            return (w, h);
        }
        i = i + 1;
    }
    (640, 480)
}

// ── Frame reassembly ─────────────────────────────────────────────────

/// A packet whose header length byte is at least 2 and fits the packet.
pub open spec fn header_ok(pkt: Seq<u8>) -> bool {
    pkt.len() >= 2 && 2 <= pkt[0] && pkt[0] <= pkt.len()
}

/// The frame-id bit of the header flags.
pub open spec fn fid_of(pkt: Seq<u8>) -> u8 {
    (pkt[1] % 2) as u8
}

/// The end-of-frame bit of the header flags.
pub open spec fn eof_of(pkt: Seq<u8>) -> bool {
    (pkt[1] / 2) % 2 == 1
}

/// The bytes after the header.
pub open spec fn payload_of(pkt: Seq<u8>) -> Seq<u8> {
    pkt.skip(pkt[0] as int)
}

/// The reassembly state: the frame being collected, the frame id of the
/// last packet, whether a frame has started.
#[verifier::ext_equal]
pub struct AssemblerView {
    pub buffer: Seq<u8>,
    pub last_fid: u8,
    pub started: bool,
}

/// One packet: the new state and the frame buffer handed out, if the
/// packet closed one. A toggled frame id closes the frame collected so far
/// and starts a new one with this packet's payload; the end-of-frame bit
/// closes the frame that includes this packet's payload.
pub open spec fn assemble(st: AssemblerView, pkt: Seq<u8>) -> (AssemblerView, Option<Seq<u8>>) {
    if !header_ok(pkt) {
        (st, None)
    } else {
        let fid = fid_of(pkt);
        let payload = payload_of(pkt);
        if st.buffer.len() > 0 && fid != st.last_fid {
            (AssemblerView { buffer: payload, last_fid: fid, started: true }, Some(st.buffer))
        } else {
            let started = st.started || payload.len() > 0;
            let buffer = if started { st.buffer + payload } else { st.buffer };
            if started && eof_of(pkt) && buffer.len() > 0 {
                (AssemblerView { buffer: Seq::empty(), last_fid: fid, started: false }, Some(buffer))
            } else {
                (AssemblerView { buffer, last_fid: fid, started }, None)
            }
        }
    }
}

/// What one packet produced.
pub enum PacketOutcome {
    /// The frame is still being collected.
    Pending,
    /// A complete JPEG frame.
    Frame(Vec<u8>),
    /// A closed frame of this many bytes that was not a complete JPEG.
    Dropped(usize),
}

/// The bytes of packet `i` of an isochronous transfer whose packets sit
/// `stride` bytes apart: its actual length, at most one stride, cut at the
/// end of the data.
pub open spec fn packet_end(i: nat, len: u32, stride: nat, data_len: nat) -> int {
    let offset = i * stride;
    let want = offset + (if len <= stride { len as int } else { stride as int });
    if want <= data_len { want } else { data_len as int }
}

/// Packets `i..` of a transfer run through the assembler: the final state,
/// the first complete frame (after which the rest of the transfer is not
/// looked at), and the sizes of the incomplete frames closed before it.
pub open spec fn run_packets(st: AssemblerView, data: Seq<u8>, lengths: Seq<u32>, stride: nat, i: nat)
    -> (AssemblerView, Option<Seq<u8>>, Seq<usize>)
    decreases lengths.len() - i,
{
    if i >= lengths.len() {
        (st, None, Seq::empty())
    } else if lengths[i as int] == 0 {
        run_packets(st, data, lengths, stride, i + 1)
    } else {
        let pkt = data.subrange((i * stride) as int, packet_end(i, lengths[i as int], stride, data.len()));
        let (st2, closed) = assemble(st, pkt);
        match closed {
            Some(f) => if complete_jpeg(f) {
                (st2, Some(f), Seq::empty())
            } else {
                let r = run_packets(st2, data, lengths, stride, i + 1);
                (r.0, r.1, seq![f.len() as usize] + r.2)
            },
            None => run_packets(st2, data, lengths, stride, i + 1),
        }
    }
}

/// The transfers the capture loop walks without panicking: the packet
/// offsets it computes stay in the `usize` range, and every packet with
/// data starts within the data (up to the first complete frame).
pub open spec fn packets_defined(st: AssemblerView, data: Seq<u8>, lengths: Seq<u32>, stride: nat, i: nat) -> bool
    decreases lengths.len() - i,
{
    if i >= lengths.len() {
        true
    } else {
        &&& i * stride + stride <= usize::MAX
        &&& if lengths[i as int] == 0 {
            packets_defined(st, data, lengths, stride, i + 1)
        } else {
            &&& i * stride <= data.len()
            &&& ({
                let pkt = data.subrange((i * stride) as int, packet_end(i, lengths[i as int], stride, data.len()));
                let (st2, closed) = assemble(st, pkt);
                match closed {
                    Some(f) => complete_jpeg(f) || packets_defined(st2, data, lengths, stride, i + 1),
                    None => packets_defined(st2, data, lengths, stride, i + 1),
                }
            })
        }
    }
}

/// Packets `i..` of a transfer all run through the assembler, none
/// skipped: the final state and every frame closed on the way, in order.
pub open spec fn assemble_all(st: AssemblerView, data: Seq<u8>, lengths: Seq<u32>, stride: nat, i: nat)
    -> (AssemblerView, Seq<Seq<u8>>)
    decreases lengths.len() - i,
{
    if i >= lengths.len() {
        (st, Seq::empty())
    } else if lengths[i as int] == 0 {
        assemble_all(st, data, lengths, stride, i + 1)
    } else {
        let pkt = data.subrange((i * stride) as int, packet_end(i, lengths[i as int], stride, data.len()));
        let (st2, closed) = assemble(st, pkt);
        let rest = assemble_all(st2, data, lengths, stride, i + 1);
        (rest.0, match closed {
            Some(f) => seq![f] + rest.1,
            None => rest.1,
        })
    }
}

/// The sizes of a list of frames.
pub open spec fn frame_sizes(frames: Seq<Seq<u8>>) -> Seq<usize> {
    frames.map_values(|f: Seq<u8>| f.len() as usize)
}

/// The statement of `lemma_transfer_stops_only_at_frame` at packet `i`.
spec fn stops_only_at_frame(st: AssemblerView, data: Seq<u8>, lengths: Seq<u32>, stride: nat, i: nat) -> bool {
            let r = run_packets(st, data, lengths, stride, i);
            let a = assemble_all(st, data, lengths, stride, i);
            &&& r.1 is None ==> r.0 == a.0 && r.2 == frame_sizes(a.1)
                && forall|k: int| 0 <= k < a.1.len() ==> !complete_jpeg(#[trigger] a.1[k])
            &&& r.1 matches Some(f) ==> exists|k: int| 0 <= k < a.1.len() && #[trigger] a.1[k] == f
                && complete_jpeg(f) && r.2 == frame_sizes(a.1.take(k))
                && forall|j: int| 0 <= j < k ==> !complete_jpeg(#[trigger] a.1[j])
}

/// A transfer is cut short only by a complete JPEG frame. When it yields no
/// frame, every packet went through the assembler (the state is the one
/// after all of them), none of the closed frames was a complete JPEG, and
/// each of them is reported as dropped. When it yields a frame, that frame
/// is the first complete JPEG among the frames the packets close, and
/// exactly the frames closed before it are reported as dropped.
pub proof fn lemma_transfer_stops_only_at_frame(
    st: AssemblerView,
    data: Seq<u8>,
    lengths: Seq<u32>,
    stride: nat,
    i: nat,
)
    ensures
        ({
            let r = run_packets(st, data, lengths, stride, i);
            let a = assemble_all(st, data, lengths, stride, i);
            &&& r.1 is None ==> r.0 == a.0 && r.2 == frame_sizes(a.1)
                && forall|k: int| 0 <= k < a.1.len() ==> !complete_jpeg(#[trigger] a.1[k])
            &&& r.1 matches Some(f) ==> exists|k: int| 0 <= k < a.1.len() && #[trigger] a.1[k] == f
                && complete_jpeg(f) && r.2 == frame_sizes(a.1.take(k))
                && forall|j: int| 0 <= j < k ==> !complete_jpeg(#[trigger] a.1[j])
        }),
    decreases lengths.len() - i,
{
    if i < lengths.len() {
        lemma_transfer_stops_only_at_frame(st, data, lengths, stride, i + 1);
        if lengths[i as int] == 0 {
            assert(run_packets(st, data, lengths, stride, i) == run_packets(st, data, lengths, stride, i + 1));
            assert(assemble_all(st, data, lengths, stride, i) == assemble_all(st, data, lengths, stride, i + 1));
            assert(stops_only_at_frame(st, data, lengths, stride, i));
        } else {
            let pkt = data.subrange((i * stride) as int, packet_end(i, lengths[i as int], stride, data.len()));
            let (st2, closed) = assemble(st, pkt);
            lemma_transfer_stops_only_at_frame(st2, data, lengths, stride, i + 1);
            let r2 = run_packets(st2, data, lengths, stride, i + 1);
            let a2 = assemble_all(st2, data, lengths, stride, i + 1);
            if closed is None {
                assert(run_packets(st, data, lengths, stride, i) == r2);
                assert(assemble_all(st, data, lengths, stride, i) == a2);
                assert(stops_only_at_frame(st, data, lengths, stride, i));
            }
            if let Some(f) = closed {
                let all = seq![f] + a2.1;
                assert(assemble_all(st, data, lengths, stride, i) == (a2.0, all));
                assert(all[0] == f);
                assert forall|k: int| 0 <= k < a2.1.len() implies all[k + 1] == #[trigger] a2.1[k] by {}
                if complete_jpeg(f) {
                    assert(all.take(0) =~= Seq::<Seq<u8>>::empty());
                    assert(frame_sizes(all.take(0)) =~= Seq::<usize>::empty());
                    assert(run_packets(st, data, lengths, stride, i) == (st2, Some(f), Seq::<usize>::empty()));
                    assert(all[0] == f && complete_jpeg(f));
                    assert(stops_only_at_frame(st, data, lengths, stride, i));
                } else {
                    if r2.1 is None {
                        assert(frame_sizes(all) =~= seq![f.len() as usize] + frame_sizes(a2.1));
                        assert forall|k: int| 0 <= k < all.len() implies !complete_jpeg(#[trigger] all[k]) by {
                            if k > 0 {
                                assert(all[k] == a2.1[k - 1]);
                            }
                        }
                    } else {
                        let g = r2.1.unwrap();
                        let k2 = choose|k: int| 0 <= k < a2.1.len() && #[trigger] a2.1[k] == g
                            && complete_jpeg(g) && r2.2 == frame_sizes(a2.1.take(k))
                            && forall|j: int| 0 <= j < k ==> !complete_jpeg(#[trigger] a2.1[j]);
                        assert(all[k2 + 1] == g);
                        assert(all.take(k2 + 1) =~= seq![f] + a2.1.take(k2));
                        assert(frame_sizes(all.take(k2 + 1)) =~= seq![f.len() as usize] + frame_sizes(a2.1.take(k2)));
                        assert forall|j: int| 0 <= j < k2 + 1 implies !complete_jpeg(#[trigger] all[j]) by {
                            if j > 0 {
                                assert(all[j] == a2.1[j - 1]);
                            }
                        }
                        assert(run_packets(st, data, lengths, stride, i)
                            == (r2.0, r2.1, seq![f.len() as usize] + r2.2));
                        assert(0 <= k2 + 1 < all.len() && all[k2 + 1] == g && complete_jpeg(g)
                            && seq![f.len() as usize] + r2.2 == frame_sizes(all.take(k2 + 1)));
                        assert(stops_only_at_frame(st, data, lengths, stride, i));
                    }
                }
            }
        }
    } else {
        assert(frame_sizes(Seq::<Seq<u8>>::empty()) =~= Seq::<usize>::empty());
    }
}

/// What one isochronous transfer produced.
pub struct TransferFrames {
    /// The first complete frame, if one was closed.
    pub frame: Option<Vec<u8>>,
    /// Sizes of the incomplete frames dropped before it, in order.
    pub dropped: Vec<usize>,
}

/// Collects the payloads of UVC packets into frames.
pub struct FrameAssembler {
    buffer: Vec<u8>,
    last_fid: u8,
    started: bool,
    received: Ghost<Seq<u8>>,
    handed_out: Ghost<Seq<u8>>,
}

impl View for FrameAssembler {
    type V = AssemblerView;

    closed spec fn view(&self) -> AssemblerView {
        AssemblerView { buffer: self.buffer@, last_fid: self.last_fid, started: self.started }
    }
}

impl FrameAssembler {
    /// All payload bytes taken in, in order.
    pub closed spec fn received(&self) -> Seq<u8> {
        self.received@
    }

    /// All bytes of the frames closed so far (handed out or dropped), in
    /// order.
    pub closed spec fn handed_out(&self) -> Seq<u8> {
        self.handed_out@
    }

    /// No byte is lost or duplicated: what was closed, followed by what is
    /// being collected, is exactly what came in; and nothing is collected
    /// before a frame starts.
    pub open spec fn wf(&self) -> bool {
        &&& self.handed_out() + self@.buffer == self.received()
        &&& (!self@.started ==> self@.buffer.len() == 0)
    }

    pub fn new() -> (a: Self)
        ensures
            a@ == (AssemblerView { buffer: Seq::empty(), last_fid: 0, started: false }),
            a.received() == Seq::<u8>::empty(),
            a.handed_out() == Seq::<u8>::empty(),
            a.wf(),
    {
        let a = FrameAssembler {
            buffer: Vec::new(),
            last_fid: 0,
            started: false,
            received: Ghost(Seq::empty()),
            handed_out: Ghost(Seq::empty()),
        };
        assert(a.handed_out() + a@.buffer =~= a.received());
        a
    }

    /// Takes in one packet; hands out the frame it closed when that frame is
    /// a complete JPEG, or reports its size when it is not.
    pub fn push_packet(&mut self, pkt: &[u8]) -> (o: PacketOutcome)
        requires
            old(self).wf(),
        ensures
            final(self).wf(),
            final(self)@ == assemble(old(self)@, pkt@).0,
            match assemble(old(self)@, pkt@).1 {
                None => o is Pending,
                Some(f) => if complete_jpeg(f) {
                    o matches PacketOutcome::Frame(v) && v@ == f
                } else {
                    o == PacketOutcome::Dropped(f.len() as usize)
                },
            },
            final(self).received() == (if header_ok(pkt@) { old(self).received() + payload_of(pkt@) } else { old(self).received() }),
            final(self).handed_out() == match assemble(old(self)@, pkt@).1 {
                None => old(self).handed_out(),
                Some(f) => old(self).handed_out() + f,
            },
    {
        let ghost v = self@;
        if pkt.len() < 2 {
            return PacketOutcome::Pending;
        }
        let hdr_len = pkt[0] as usize;
        if hdr_len < 2 || hdr_len > pkt.len() {
            return PacketOutcome::Pending;
        }
        let flags = pkt[1];
        let is_eof = (flags & 0x02) != 0;
        let fid = flags & 0x01;
        assert(((flags & 0x02u8) != 0) == ((flags / 2) % 2 == 1)) by (bit_vector);
        assert((flags & 0x01u8) == flags % 2) by (bit_vector);
        let payload = vstd::slice::slice_subrange(pkt, hdr_len, pkt.len());
        assert(payload@ =~= payload_of(pkt@));
        let ghost old_received = self.received@;
        let ghost old_handed = self.handed_out@;
        self.received = Ghost(old_received + payload@);
        if self.buffer.len() > 0 && fid != self.last_fid {
            let mut complete: Vec<u8> = Vec::new();
            std::mem::swap(&mut complete, &mut self.buffer);
            self.started = false;
            self.last_fid = fid;
            self.buffer.extend_from_slice(payload);
            self.started = true;
            self.handed_out = Ghost(old_handed + complete@);
            assert(self.handed_out@ + self.buffer@ =~= self.received@);
            return self.close(complete);
        }
        if !self.started && payload.len() > 0 {
            self.started = true;
        }
        if self.started {
            self.buffer.extend_from_slice(payload);
        } else {
            assert(payload@.len() == 0);
        }
        if self.started && is_eof && self.buffer.len() > 0 {
            let mut complete: Vec<u8> = Vec::new();
            std::mem::swap(&mut complete, &mut self.buffer);
            self.started = false;
            self.last_fid = fid;
            self.handed_out = Ghost(old_handed + complete@);
            assert(self.buffer@ =~= Seq::<u8>::empty());
            assert(self.handed_out@ + self.buffer@ =~= self.received@);
            return self.close(complete);
        }
        self.last_fid = fid;
        assert(self.handed_out@ + self.buffer@ =~= self.received@);
        PacketOutcome::Pending
    }

    /// Runs the packets of one isochronous transfer through the assembler:
    /// `data` holds the packets `stride` bytes apart and `lengths` their
    /// actual lengths. Stops at the first complete frame.
    pub fn push_transfer(&mut self, data: &[u8], lengths: &[u32], stride: usize) -> (r: TransferFrames)
        requires
            old(self).wf(),
            packets_defined(old(self)@, data@, lengths@, stride as nat, 0),
        ensures
            final(self).wf(),
            final(self)@ == run_packets(old(self)@, data@, lengths@, stride as nat, 0).0,
            match run_packets(old(self)@, data@, lengths@, stride as nat, 0).1 {
                Some(f) => r.frame matches Some(v) && v@ == f,
                None => r.frame is None,
            },
            r.dropped@ == run_packets(old(self)@, data@, lengths@, stride as nat, 0).2,
    {
        let ghost st0 = self@;
        let mut dropped: Vec<usize> = Vec::new();
        let mut offset: usize = 0;
        let mut i: usize = 0;
        while i < lengths.len()
            invariant
                self.wf(),
                st0 == old(self)@,
                i <= lengths@.len(),
                offset == i * stride,
                packets_defined(self@, data@, lengths@, stride as nat, i as nat),
                run_packets(st0, data@, lengths@, stride as nat, 0) == ({
                    let rest = run_packets(self@, data@, lengths@, stride as nat, i as nat);
                    (rest.0, rest.1, dropped@ + rest.2)
                }),
            decreases lengths@.len() - i,
        {
            let actual = lengths[i] as usize;
            if actual == 0 {
                assert(offset + stride == (i + 1) * stride) by (nonlinear_arith)
                    requires offset == i * stride;
                offset = offset + stride;
                i = i + 1;
                continue;
            }
            let take = if actual <= stride { actual } else { stride };
            let want = offset + take;
            let end = if want <= data.len() { want } else { data.len() };
            let pkt = vstd::slice::slice_subrange(data, offset, end);
            assert(offset + stride == (i + 1) * stride) by (nonlinear_arith)
                requires offset == i * stride;
            offset = offset + stride;
            let ghost before = self@;
            let ghost at = i as nat;
            assert(run_packets(st0, data@, lengths@, stride as nat, 0) == ({
                let rest = run_packets(before, data@, lengths@, stride as nat, at);
                (rest.0, rest.1, dropped@ + rest.2)
            }));
            assert(end == packet_end(at, lengths@[i as int], stride as nat, data@.len()));
            let o = self.push_packet(pkt);
            i = i + 1;
            match o {
                PacketOutcome::Frame(v) => {
                    assert(run_packets(before, data@, lengths@, stride as nat, at)
                        == (self@, Some(v@), Seq::<usize>::empty()));
                    assert(dropped@ + Seq::<usize>::empty() =~= dropped@);
                    return TransferFrames { frame: Some(v), dropped };
                },
                PacketOutcome::Dropped(n) => {
                    let ghost prev = dropped@;
                    dropped.push(n);
                    proof {
                        let rest = run_packets(self@, data@, lengths@, stride as nat, i as nat);
                        assert(prev + (seq![n] + rest.2) =~= dropped@ + rest.2);
                    }
                },
                PacketOutcome::Pending => {},
            }
        }
        assert(dropped@ + Seq::<usize>::empty() =~= dropped@);
        TransferFrames { frame: None, dropped }
    }

    fn close(&self, complete: Vec<u8>) -> (o: PacketOutcome)
        ensures
            if complete_jpeg(complete@) {
                o matches PacketOutcome::Frame(v) && v@ == complete@
            } else {
                o == PacketOutcome::Dropped(complete@.len() as usize)
            },
    {
        if is_complete_jpeg(complete.as_slice()) {
            PacketOutcome::Frame(complete)
        } else {
            PacketOutcome::Dropped(complete.len())
        }
    }
}

} // verus!
