//! The choices of the interactive webcam tester: which camera, which mode,
//! which formats to try and in what order.

use vstd::prelude::*;
use crate::args::{dec_spec, parse_unsigned};

verus! {

/// Pixel encodings a camera can deliver.
#[derive(Debug, Clone, Copy, PartialEq, Eq, Structural)]
pub enum FrameKind {
    MJPEG,
    YUYV,
    NV12,
    GRAY,
    RAWRGB,
    RAWBGR,
}

/// A camera format: resolution, encoding and frame rate.
#[derive(Debug, Clone, Copy, PartialEq, Eq, Structural)]
pub struct CameraFormatInfo {
    pub width: u32,
    pub height: u32,
    pub kind: FrameKind,
    pub fps: u32,
}

/// The index typed at the camera prompt, if it names one of `count`
/// cameras.
pub fn parse_camera_choice(input: &[u8], count: usize) -> (r: Option<usize>)
    ensures
        match dec_spec(input@, usize::MAX as nat) {
            Ok(n) => if n < count { r == Some(n as usize) } else { r is None },
            Err(_) => r is None,
        },
{
    match parse_unsigned(input, 10, usize::MAX as u64) {
        Ok(n) => if n < count as u64 { Some(n as usize) } else { None },
        Err(_) => None,
    }
}

/// The mode typed at the mode prompt: exactly "1" or "2".
pub fn parse_mode(input: &[u8]) -> (r: Option<u8>)
    ensures
        input@ == seq![0x31u8] ==> r == Some(1u8),
        input@ == seq![0x32u8] ==> r == Some(2u8),
        input@ != seq![0x31u8] && input@ != seq![0x32u8] ==> r is None,
{
    if input.len() == 1 && input[0] == 0x31 {
        assert(input@ =~= seq![0x31u8]);
        Some(1)
    } else if input.len() == 1 && input[0] == 0x32 {
        assert(input@ =~= seq![0x32u8]);
        Some(2)
    } else {
        proof {
            if input@.len() == 1 {
                assert(input@ != seq![0x31u8] ==> input@[0] != 0x31);
                assert(input@ != seq![0x32u8] ==> input@[0] != 0x32);
            }
        }
        None
    }
}

/// The answer at the format prompt.
#[derive(Debug, Clone, Copy, PartialEq, Eq, Structural)]
pub enum FormatChoice {
    /// Empty answer: use the best MJPEG format.
    Default,
    /// A listed format.
    Index(usize),
    /// Not a listed index: the default is used after a warning.
    Invalid,
}

/// Reads the answer at the format prompt among `count` formats.
pub fn parse_format_choice(input: &[u8], count: usize) -> (r: FormatChoice)
    ensures
        input@.len() == 0 ==> r == FormatChoice::Default,
        input@.len() > 0 ==> match dec_spec(input@, usize::MAX as nat) {
            Ok(n) => if n < count { r == FormatChoice::Index(n as usize) } else { r == FormatChoice::Invalid },
            Err(_) => r == FormatChoice::Invalid,
        },
{
    if input.len() == 0 {
        return FormatChoice::Default;
    }
    match parse_unsigned(input, 10, usize::MAX as u64) {
        Ok(n) => if n < count as u64 { FormatChoice::Index(n as usize) } else { FormatChoice::Invalid },
        Err(_) => FormatChoice::Invalid,
    }
}

/// A format of the given size, encoding and 30 frames per second.
pub open spec fn fmt30(width: u32, height: u32, kind: FrameKind) -> CameraFormatInfo {
    CameraFormatInfo { width, height, kind, fps: 30 }
}

/// The formats the simple mode tries, best first.
pub open spec fn simple_mode_list() -> Seq<CameraFormatInfo> {
    seq![
        fmt30(1920, 1080, FrameKind::MJPEG),
        fmt30(1280, 720, FrameKind::MJPEG),
        fmt30(640, 480, FrameKind::MJPEG),
        fmt30(640, 480, FrameKind::YUYV),
    ]
}

/// The formats offered when the driver reports none: MJPEG first, YUYV
/// only as a last resort.
pub open spec fn fallback_list() -> Seq<CameraFormatInfo> {
    seq![
        fmt30(1280, 720, FrameKind::MJPEG),
        fmt30(640, 480, FrameKind::MJPEG),
        fmt30(1920, 1080, FrameKind::MJPEG),
        fmt30(640, 480, FrameKind::YUYV),
        fmt30(1280, 720, FrameKind::YUYV),
    ]
}

/// The formats the simple mode tries, in order.
pub fn simple_mode_formats() -> (v: Vec<CameraFormatInfo>)
    ensures
        v@ == simple_mode_list(),
{
    let v = vec![
        CameraFormatInfo { width: 1920, height: 1080, kind: FrameKind::MJPEG, fps: 30 },
        CameraFormatInfo { width: 1280, height: 720, kind: FrameKind::MJPEG, fps: 30 },
        CameraFormatInfo { width: 640, height: 480, kind: FrameKind::MJPEG, fps: 30 },
        CameraFormatInfo { width: 640, height: 480, kind: FrameKind::YUYV, fps: 30 },
    ];
    assert(v@ =~= simple_mode_list());
    v
}

fn fallback_formats() -> (v: Vec<CameraFormatInfo>)
    ensures
        v@ == fallback_list(),
{
    let v = vec![
        CameraFormatInfo { width: 1280, height: 720, kind: FrameKind::MJPEG, fps: 30 },
        CameraFormatInfo { width: 640, height: 480, kind: FrameKind::MJPEG, fps: 30 },
        CameraFormatInfo { width: 1920, height: 1080, kind: FrameKind::MJPEG, fps: 30 },
        CameraFormatInfo { width: 640, height: 480, kind: FrameKind::YUYV, fps: 30 },
        CameraFormatInfo { width: 1280, height: 720, kind: FrameKind::YUYV, fps: 30 },
    ];
    assert(v@ =~= fallback_list());
    v
}

/// `s` restricted to the formats whose encoding is (or is not) MJPEG, in
/// their order.
pub open spec fn with_kind(s: Seq<CameraFormatInfo>, mjpeg: bool) -> Seq<CameraFormatInfo> {
    s.filter(is_kind(mjpeg))
}

/// Whether a format's encoding is (or is not) MJPEG.
pub open spec fn is_kind(mjpeg: bool) -> spec_fn(CameraFormatInfo) -> bool {
    |f: CameraFormatInfo| (f.kind == FrameKind::MJPEG) == mjpeg
}

/// The formats to offer: the fallback list when the driver reported none,
/// otherwise the driver's formats with every MJPEG format moved to the
/// front, each group keeping the driver's order (a stable sort on "is not
/// MJPEG").
pub open spec fn offered_formats(reported: Seq<CameraFormatInfo>) -> Seq<CameraFormatInfo> {
    if reported.len() == 0 {
        fallback_list()
    } else {
        with_kind(reported, true) + with_kind(reported, false)
    }
}

/// Orders the formats to offer, as `offered_formats` says.
pub fn order_formats(reported: Vec<CameraFormatInfo>) -> (v: Vec<CameraFormatInfo>)
    ensures
        v@ == offered_formats(reported@),
{
    if reported.len() == 0 {
        return fallback_formats();
    }
    let mut first: Vec<CameraFormatInfo> = Vec::new();
    let mut rest: Vec<CameraFormatInfo> = Vec::new();
    let mut i: usize = 0;
    while i < reported.len()
        invariant
            i <= reported@.len(),
            first@ == with_kind(reported@.take(i as int), true),
            rest@ == with_kind(reported@.take(i as int), false),
        decreases reported@.len() - i,
    {
        let f = reported[i];
        proof {
            let s = reported@.take(i + 1);
            assert(s.drop_last() =~= reported@.take(i as int));
            assert(s.last() == f);
            reveal_with_fuel(Seq::filter, 1);
        }
        if f.kind == FrameKind::MJPEG {
            first.push(f);
        } else {
            rest.push(f);
        }
        i = i + 1;
    }
    assert(reported@.take(i as int) =~= reported@);
    let mut j: usize = 0;
    let ghost front = first@;
    while j < rest.len()
        invariant
            j <= rest@.len(),
            first@ == front + rest@.take(j as int),
        decreases rest@.len() - j,
    {
        first.push(rest[j]);
        j = j + 1;
        assert(first@ =~= front + rest@.take(j as int));
    }
    assert(rest@.take(j as int) =~= rest@);
    first
}

/// Ordering the formats loses none and adds none: every format occurs as
/// often in the offered list as in the driver's list, and the MJPEG formats
/// come first.
pub proof fn lemma_order_is_stable_partition(reported: Seq<CameraFormatInfo>)
    requires
        reported.len() > 0,
    ensures
        offered_formats(reported).to_multiset() == reported.to_multiset(),
        forall|i: int, j: int| 0 <= i < j < offered_formats(reported).len()
            && offered_formats(reported)[j].kind == FrameKind::MJPEG
            ==> offered_formats(reported)[i].kind == FrameKind::MJPEG,
{
    let m = with_kind(reported, true);
    let n = with_kind(reported, false);
    let o = offered_formats(reported);
    vstd::seq_lib::lemma_multiset_commutative(m, n);
    lemma_filter_split(reported);
    assert forall|i: int, j: int| 0 <= i < j < o.len() && o[j].kind == FrameKind::MJPEG
        implies o[i].kind == FrameKind::MJPEG by {
        reported.lemma_filter_len(is_kind(true));
        reported.lemma_filter_len(is_kind(false));
        if j >= m.len() {
            assert(o[j] == n[j - m.len()]);
            reported.lemma_filter_pred(is_kind(false), j - m.len());
        }
        if i < m.len() {
            assert(o[i] == m[i]);
            reported.lemma_filter_pred(is_kind(true), i);
        }
    }
}

/// Splitting a list by encoding keeps every element.
proof fn lemma_filter_split(s: Seq<CameraFormatInfo>)
    ensures
        (with_kind(s, true) + with_kind(s, false)).to_multiset() == s.to_multiset(),
    decreases s.len(),
{
    broadcast use vstd::seq_lib::group_seq_properties;
    if s.len() == 0 {
        assert(with_kind(s, true) =~= Seq::<CameraFormatInfo>::empty());
        assert(with_kind(s, false) =~= Seq::<CameraFormatInfo>::empty());
        assert(with_kind(s, true) + with_kind(s, false) =~= Seq::<CameraFormatInfo>::empty());
    } else {
        let p = s.drop_last();
        lemma_filter_split(p);
        reveal_with_fuel(Seq::filter, 1);
        let x = s.last();
        assert(s =~= p.push(x));
        vstd::seq_lib::lemma_multiset_commutative(with_kind(p, true), with_kind(p, false));
        if x.kind == FrameKind::MJPEG {
            assert(with_kind(s, true) =~= with_kind(p, true).push(x));
            assert(with_kind(s, false) =~= with_kind(p, false));
            vstd::seq_lib::lemma_multiset_commutative(with_kind(p, true).push(x), with_kind(p, false));
            vstd::seq_lib::lemma_multiset_commutative(with_kind(p, false), with_kind(p, true));
        } else {
            assert(with_kind(s, true) =~= with_kind(p, true));
            assert(with_kind(s, false) =~= with_kind(p, false).push(x));
            vstd::seq_lib::lemma_multiset_commutative(with_kind(p, true), with_kind(p, false).push(x));
        }
    }
}

/// Attempts at opening a camera in a chosen format before falling back to
/// the system default.
pub const OPEN_ATTEMPTS: u64 = 3;

/// The pause before attempt `attempt` (from 1): 300 ms per attempt.
pub fn retry_delay_ms(attempt: u64) -> (ms: u64)
    requires
        300 * attempt <= u64::MAX,
    ensures
        ms == 300 * attempt,
{
    300 * attempt
}

} // verus!
