//! JPEG checks of the webcam guest: whether a reassembled MJPEG frame is
//! whole, and the standard Huffman tables that strict decoders need.

use vstd::prelude::*;
use crate::bytes_le::be_u16;

verus! {

/// A frame that starts with SOI (FF D8) and ends with EOI (FF D9), at least
/// four bytes long.
pub open spec fn complete_jpeg(s: Seq<u8>) -> bool {
    s.len() >= 4 && s[0] == 0xFF && s[1] == 0xD8 && s[s.len() - 2] == 0xFF && s[s.len() - 1] == 0xD9
}

/// Whether `data` is a complete JPEG (starts with SOI, ends with EOI).
pub fn is_complete_jpeg(data: &[u8]) -> (b: bool)
    ensures
        b == complete_jpeg(data@),
{
    data.len() >= 4 && data[0] == 0xFF && data[1] == 0xD8 && data[data.len() - 2] == 0xFF
        && data[data.len() - 1] == 0xD9
}

/// `s` holds the marker FF `m` somewhere.
pub open spec fn has_marker(s: Seq<u8>, m: u8) -> bool {
    exists|i: int| 0 <= i && i + 1 < s.len() && s[i] == 0xFF && #[trigger] s[i + 1] == m
}

/// The position of the first marker FF `m` at or after `from`.
pub open spec fn first_marker_from(s: Seq<u8>, m: u8, from: int) -> Option<int>
    decreases s.len() - from,
{
    if from < 0 || from + 1 >= s.len() {
        None
    } else if s[from] == 0xFF && s[from + 1] == m {
        Some(from)
    } else {
        first_marker_from(s, m, from + 1)
    }
}

/// The four standard baseline Huffman tables (ITU-T T.81, Annex K) as DHT
/// segments: luminance DC, chrominance DC, luminance AC, chrominance AC.
#[verifier::opaque]
pub open spec fn standard_dht() -> Seq<u8> {
    seq![
        0xFFu8, 0xC4, 0x00, 0x1F, 0x00, 0x00, 0x01, 0x05, 0x01, 0x01, 0x01, 0x01, 0x01, 0x01, 0x00, 0x00,
        0x00, 0x00, 0x00, 0x00, 0x00, 0x00, 0x01, 0x02, 0x03, 0x04, 0x05, 0x06, 0x07, 0x08, 0x09, 0x0A,
        0x0B, 0xFF, 0xC4, 0x00, 0x1F, 0x01, 0x00, 0x03, 0x01, 0x01, 0x01, 0x01, 0x01, 0x01, 0x01, 0x01,
        0x01, 0x00, 0x00, 0x00, 0x00, 0x00, 0x00, 0x01, 0x02, 0x03, 0x04, 0x05, 0x06, 0x07, 0x08, 0x09,
        0x0A, 0x0B, 0xFF, 0xC4, 0x00, 0xB5, 0x10, 0x00, 0x02, 0x01, 0x03, 0x03, 0x02, 0x04, 0x03, 0x05,
        0x05, 0x04, 0x04, 0x00, 0x00, 0x01, 0x7D, 0x01, 0x02, 0x03, 0x00, 0x04, 0x11, 0x05, 0x12, 0x21,
        0x31, 0x41, 0x06, 0x13, 0x51, 0x61, 0x07, 0x22, 0x71, 0x14, 0x32, 0x81, 0x91, 0xA1, 0x08, 0x23,
        0x42, 0xB1, 0xC1, 0x15, 0x52, 0xD1, 0xF0, 0x24, 0x33, 0x62, 0x72, 0x82, 0x09, 0x0A, 0x16, 0x17,
        0x18, 0x19, 0x1A, 0x25, 0x26, 0x27, 0x28, 0x29, 0x2A, 0x34, 0x35, 0x36, 0x37, 0x38, 0x39, 0x3A,
        0x43, 0x44, 0x45, 0x46, 0x47, 0x48, 0x49, 0x4A, 0x53, 0x54, 0x55, 0x56, 0x57, 0x58, 0x59, 0x5A,
        0x63, 0x64, 0x65, 0x66, 0x67, 0x68, 0x69, 0x6A, 0x73, 0x74, 0x75, 0x76, 0x77, 0x78, 0x79, 0x7A,
        0x83, 0x84, 0x85, 0x86, 0x87, 0x88, 0x89, 0x8A, 0x92, 0x93, 0x94, 0x95, 0x96, 0x97, 0x98, 0x99,
        0x9A, 0xA2, 0xA3, 0xA4, 0xA5, 0xA6, 0xA7, 0xA8, 0xA9, 0xAA, 0xB2, 0xB3, 0xB4, 0xB5, 0xB6, 0xB7,
        0xB8, 0xB9, 0xBA, 0xC2, 0xC3, 0xC4, 0xC5, 0xC6, 0xC7, 0xC8, 0xC9, 0xCA, 0xD2, 0xD3, 0xD4, 0xD5,
        0xD6, 0xD7, 0xD8, 0xD9, 0xDA, 0xE1, 0xE2, 0xE3, 0xE4, 0xE5, 0xE6, 0xE7, 0xE8, 0xE9, 0xEA, 0xF1,
        0xF2, 0xF3, 0xF4, 0xF5, 0xF6, 0xF7, 0xF8, 0xF9, 0xFA, 0xFF, 0xC4, 0x00, 0xB5, 0x11, 0x00, 0x02,
        0x01, 0x02, 0x04, 0x04, 0x03, 0x04, 0x07, 0x05, 0x04, 0x04, 0x00, 0x01, 0x02, 0x77, 0x00, 0x01,
        0x02, 0x03, 0x11, 0x04, 0x05, 0x21, 0x31, 0x06, 0x12, 0x41, 0x51, 0x07, 0x61, 0x71, 0x13, 0x22,
        0x32, 0x81, 0x08, 0x14, 0x42, 0x91, 0xA1, 0xB1, 0xC1, 0x09, 0x23, 0x33, 0x52, 0xF0, 0x15, 0x62,
        0x72, 0xD1, 0x0A, 0x16, 0x24, 0x34, 0xE1, 0x25, 0xF1, 0x17, 0x18, 0x19, 0x1A, 0x26, 0x27, 0x28,
        0x29, 0x2A, 0x35, 0x36, 0x37, 0x38, 0x39, 0x3A, 0x43, 0x44, 0x45, 0x46, 0x47, 0x48, 0x49, 0x4A,
        0x53, 0x54, 0x55, 0x56, 0x57, 0x58, 0x59, 0x5A, 0x63, 0x64, 0x65, 0x66, 0x67, 0x68, 0x69, 0x6A,
        0x73, 0x74, 0x75, 0x76, 0x77, 0x78, 0x79, 0x7A, 0x82, 0x83, 0x84, 0x85, 0x86, 0x87, 0x88, 0x89,
        0x8A, 0x92, 0x93, 0x94, 0x95, 0x96, 0x97, 0x98, 0x99, 0x9A, 0xA2, 0xA3, 0xA4, 0xA5, 0xA6, 0xA7,
        0xA8, 0xA9, 0xAA, 0xB2, 0xB3, 0xB4, 0xB5, 0xB6, 0xB7, 0xB8, 0xB9, 0xBA, 0xC2, 0xC3, 0xC4, 0xC5,
        0xC6, 0xC7, 0xC8, 0xC9, 0xCA, 0xD2, 0xD3, 0xD4, 0xD5, 0xD6, 0xD7, 0xD8, 0xD9, 0xDA, 0xE2, 0xE3,
        0xE4, 0xE5, 0xE6, 0xE7, 0xE8, 0xE9, 0xEA, 0xF2, 0xF3, 0xF4, 0xF5, 0xF6, 0xF7, 0xF8, 0xF9, 0xFA,
    ]
}

/// The table segments are 432 bytes long and start with a DHT marker.
pub proof fn lemma_standard_dht_facts()
    ensures
        standard_dht().len() == 432,
        standard_dht()[0] == 0xFF,
        standard_dht()[1] == 0xC4,
{
    reveal(standard_dht);
}

/// A DHT segment: the marker FF C4, the segment length (big-endian, the
/// length bytes included), the table class and id, the sixteen code-length
/// counts, then the symbol values.
pub open spec fn dht_segment(class_id: u8, counts: Seq<u8>, values: Seq<u8>) -> Seq<u8> {
    seq![0xFFu8, 0xC4u8] + be_u16((19 + values.len()) as u16) + seq![class_id] + counts + values
}

/// The sum of the code-length counts of a table.
pub open spec fn count_total(counts: Seq<u8>) -> int
    decreases counts.len(),
{
    if counts.len() == 0 { 0 } else { counts[0] + count_total(counts.drop_first()) }
}

/// Code-length counts of the luminance DC table (T.81 Table K.3).
pub open spec fn dc_luminance_counts() -> Seq<u8> {
    seq![0x00u8, 0x01, 0x05, 0x01, 0x01, 0x01, 0x01, 0x01, 0x01, 0x00, 0x00, 0x00, 0x00, 0x00, 0x00, 0x00]
}

/// Code-length counts of the chrominance DC table (T.81 Table K.4).
pub open spec fn dc_chrominance_counts() -> Seq<u8> {
    seq![0x00u8, 0x03, 0x01, 0x01, 0x01, 0x01, 0x01, 0x01, 0x01, 0x01, 0x01, 0x00, 0x00, 0x00, 0x00, 0x00]
}

/// Symbol values of both DC tables: the categories 0 to 11.
pub open spec fn dc_values() -> Seq<u8> {
    Seq::new(12, |i: int| i as u8)
}

/// Code-length counts of the luminance AC table (T.81 Table K.5).
pub open spec fn ac_luminance_counts() -> Seq<u8> {
    seq![
        0x00, 0x02, 0x01, 0x03, 0x03, 0x02, 0x04, 0x03, 0x05, 0x05, 0x04, 0x04, 0x00, 0x00, 0x01, 0x7D,
    ]
}

/// Symbol values of the luminance AC table (T.81 Table K.5).
pub open spec fn ac_luminance_values() -> Seq<u8> {
    seq![
        0x01, 0x02, 0x03, 0x00, 0x04, 0x11, 0x05, 0x12, 0x21, 0x31, 0x41, 0x06, 0x13, 0x51, 0x61, 0x07,
        0x22, 0x71, 0x14, 0x32, 0x81, 0x91, 0xA1, 0x08, 0x23, 0x42, 0xB1, 0xC1, 0x15, 0x52, 0xD1, 0xF0,
        0x24, 0x33, 0x62, 0x72, 0x82, 0x09, 0x0A, 0x16, 0x17, 0x18, 0x19, 0x1A, 0x25, 0x26, 0x27, 0x28,
        0x29, 0x2A, 0x34, 0x35, 0x36, 0x37, 0x38, 0x39, 0x3A, 0x43, 0x44, 0x45, 0x46, 0x47, 0x48, 0x49,
        0x4A, 0x53, 0x54, 0x55, 0x56, 0x57, 0x58, 0x59, 0x5A, 0x63, 0x64, 0x65, 0x66, 0x67, 0x68, 0x69,
        0x6A, 0x73, 0x74, 0x75, 0x76, 0x77, 0x78, 0x79, 0x7A, 0x83, 0x84, 0x85, 0x86, 0x87, 0x88, 0x89,
        0x8A, 0x92, 0x93, 0x94, 0x95, 0x96, 0x97, 0x98, 0x99, 0x9A, 0xA2, 0xA3, 0xA4, 0xA5, 0xA6, 0xA7,
        0xA8, 0xA9, 0xAA, 0xB2, 0xB3, 0xB4, 0xB5, 0xB6, 0xB7, 0xB8, 0xB9, 0xBA, 0xC2, 0xC3, 0xC4, 0xC5,
        0xC6, 0xC7, 0xC8, 0xC9, 0xCA, 0xD2, 0xD3, 0xD4, 0xD5, 0xD6, 0xD7, 0xD8, 0xD9, 0xDA, 0xE1, 0xE2,
        0xE3, 0xE4, 0xE5, 0xE6, 0xE7, 0xE8, 0xE9, 0xEA, 0xF1, 0xF2, 0xF3, 0xF4, 0xF5, 0xF6, 0xF7, 0xF8,
        0xF9, 0xFA,
    ]
}

/// Code-length counts of the chrominance AC table (T.81 Table K.6).
pub open spec fn ac_chrominance_counts() -> Seq<u8> {
    seq![
        0x00, 0x02, 0x01, 0x02, 0x04, 0x04, 0x03, 0x04, 0x07, 0x05, 0x04, 0x04, 0x00, 0x01, 0x02, 0x77,
    ]
}

/// Symbol values of the chrominance AC table (T.81 Table K.6).
pub open spec fn ac_chrominance_values() -> Seq<u8> {
    seq![
        0x00, 0x01, 0x02, 0x03, 0x11, 0x04, 0x05, 0x21, 0x31, 0x06, 0x12, 0x41, 0x51, 0x07, 0x61, 0x71,
        0x13, 0x22, 0x32, 0x81, 0x08, 0x14, 0x42, 0x91, 0xA1, 0xB1, 0xC1, 0x09, 0x23, 0x33, 0x52, 0xF0,
        0x15, 0x62, 0x72, 0xD1, 0x0A, 0x16, 0x24, 0x34, 0xE1, 0x25, 0xF1, 0x17, 0x18, 0x19, 0x1A, 0x26,
        0x27, 0x28, 0x29, 0x2A, 0x35, 0x36, 0x37, 0x38, 0x39, 0x3A, 0x43, 0x44, 0x45, 0x46, 0x47, 0x48,
        0x49, 0x4A, 0x53, 0x54, 0x55, 0x56, 0x57, 0x58, 0x59, 0x5A, 0x63, 0x64, 0x65, 0x66, 0x67, 0x68,
        0x69, 0x6A, 0x73, 0x74, 0x75, 0x76, 0x77, 0x78, 0x79, 0x7A, 0x82, 0x83, 0x84, 0x85, 0x86, 0x87,
        0x88, 0x89, 0x8A, 0x92, 0x93, 0x94, 0x95, 0x96, 0x97, 0x98, 0x99, 0x9A, 0xA2, 0xA3, 0xA4, 0xA5,
        0xA6, 0xA7, 0xA8, 0xA9, 0xAA, 0xB2, 0xB3, 0xB4, 0xB5, 0xB6, 0xB7, 0xB8, 0xB9, 0xBA, 0xC2, 0xC3,
        0xC4, 0xC5, 0xC6, 0xC7, 0xC8, 0xC9, 0xCA, 0xD2, 0xD3, 0xD4, 0xD5, 0xD6, 0xD7, 0xD8, 0xD9, 0xDA,
        0xE2, 0xE3, 0xE4, 0xE5, 0xE6, 0xE7, 0xE8, 0xE9, 0xEA, 0xF2, 0xF3, 0xF4, 0xF5, 0xF6, 0xF7, 0xF8,
        0xF9, 0xFA,
    ]
}

/// The inserted tables are the four baseline tables of T.81 Annex K, as DHT
/// segments in this order: luminance DC (class 0, id 0), chrominance DC
/// (class 0, id 1), luminance AC (class 1, id 0), chrominance AC (class 1,
/// id 1). Each table's counts add up to its number of symbols.
pub proof fn lemma_standard_dht_is_annex_k()
    ensures
        standard_dht() == dht_segment(0x00, dc_luminance_counts(), dc_values())
            + dht_segment(0x01, dc_chrominance_counts(), dc_values())
            + dht_segment(0x10, ac_luminance_counts(), ac_luminance_values())
            + dht_segment(0x11, ac_chrominance_counts(), ac_chrominance_values()),
        standard_dht()[4] == 0x00 && standard_dht()[37] == 0x01,
        standard_dht()[70] == 0x10 && standard_dht()[253] == 0x11,
        count_total(dc_luminance_counts()) == dc_values().len(),
        count_total(dc_chrominance_counts()) == dc_values().len(),
        count_total(ac_luminance_counts()) == ac_luminance_values().len(),
        count_total(ac_chrominance_counts()) == ac_chrominance_values().len(),
{
    reveal(standard_dht);
    let whole = dht_segment(0x00, dc_luminance_counts(), dc_values())
        + dht_segment(0x01, dc_chrominance_counts(), dc_values())
        + dht_segment(0x10, ac_luminance_counts(), ac_luminance_values())
        + dht_segment(0x11, ac_chrominance_counts(), ac_chrominance_values());
    assert(standard_dht() =~= whole);
    reveal_with_fuel(count_total, 17);
    assert(count_total(dc_luminance_counts()) == 12);
    assert(count_total(dc_chrominance_counts()) == 12);
    assert(count_total(ac_luminance_counts()) == 162);
    assert(count_total(ac_chrominance_counts()) == 162);
}

fn standard_dht_bytes() -> (v: Vec<u8>)
    ensures
        v@ == standard_dht(),
        v@.len() == 432,
{
    reveal(standard_dht);
    let v: Vec<u8> = vec![
        0xFF, 0xC4, 0x00, 0x1F, 0x00, 0x00, 0x01, 0x05, 0x01, 0x01, 0x01, 0x01, 0x01, 0x01, 0x00, 0x00,
        0x00, 0x00, 0x00, 0x00, 0x00, 0x00, 0x01, 0x02, 0x03, 0x04, 0x05, 0x06, 0x07, 0x08, 0x09, 0x0A,
        0x0B, 0xFF, 0xC4, 0x00, 0x1F, 0x01, 0x00, 0x03, 0x01, 0x01, 0x01, 0x01, 0x01, 0x01, 0x01, 0x01,
        0x01, 0x00, 0x00, 0x00, 0x00, 0x00, 0x00, 0x01, 0x02, 0x03, 0x04, 0x05, 0x06, 0x07, 0x08, 0x09,
        0x0A, 0x0B, 0xFF, 0xC4, 0x00, 0xB5, 0x10, 0x00, 0x02, 0x01, 0x03, 0x03, 0x02, 0x04, 0x03, 0x05,
        0x05, 0x04, 0x04, 0x00, 0x00, 0x01, 0x7D, 0x01, 0x02, 0x03, 0x00, 0x04, 0x11, 0x05, 0x12, 0x21,
        0x31, 0x41, 0x06, 0x13, 0x51, 0x61, 0x07, 0x22, 0x71, 0x14, 0x32, 0x81, 0x91, 0xA1, 0x08, 0x23,
        0x42, 0xB1, 0xC1, 0x15, 0x52, 0xD1, 0xF0, 0x24, 0x33, 0x62, 0x72, 0x82, 0x09, 0x0A, 0x16, 0x17,
        0x18, 0x19, 0x1A, 0x25, 0x26, 0x27, 0x28, 0x29, 0x2A, 0x34, 0x35, 0x36, 0x37, 0x38, 0x39, 0x3A,
        0x43, 0x44, 0x45, 0x46, 0x47, 0x48, 0x49, 0x4A, 0x53, 0x54, 0x55, 0x56, 0x57, 0x58, 0x59, 0x5A,
        0x63, 0x64, 0x65, 0x66, 0x67, 0x68, 0x69, 0x6A, 0x73, 0x74, 0x75, 0x76, 0x77, 0x78, 0x79, 0x7A,
        0x83, 0x84, 0x85, 0x86, 0x87, 0x88, 0x89, 0x8A, 0x92, 0x93, 0x94, 0x95, 0x96, 0x97, 0x98, 0x99,
        0x9A, 0xA2, 0xA3, 0xA4, 0xA5, 0xA6, 0xA7, 0xA8, 0xA9, 0xAA, 0xB2, 0xB3, 0xB4, 0xB5, 0xB6, 0xB7,
        0xB8, 0xB9, 0xBA, 0xC2, 0xC3, 0xC4, 0xC5, 0xC6, 0xC7, 0xC8, 0xC9, 0xCA, 0xD2, 0xD3, 0xD4, 0xD5,
        0xD6, 0xD7, 0xD8, 0xD9, 0xDA, 0xE1, 0xE2, 0xE3, 0xE4, 0xE5, 0xE6, 0xE7, 0xE8, 0xE9, 0xEA, 0xF1,
        0xF2, 0xF3, 0xF4, 0xF5, 0xF6, 0xF7, 0xF8, 0xF9, 0xFA, 0xFF, 0xC4, 0x00, 0xB5, 0x11, 0x00, 0x02,
        0x01, 0x02, 0x04, 0x04, 0x03, 0x04, 0x07, 0x05, 0x04, 0x04, 0x00, 0x01, 0x02, 0x77, 0x00, 0x01,
        0x02, 0x03, 0x11, 0x04, 0x05, 0x21, 0x31, 0x06, 0x12, 0x41, 0x51, 0x07, 0x61, 0x71, 0x13, 0x22,
        0x32, 0x81, 0x08, 0x14, 0x42, 0x91, 0xA1, 0xB1, 0xC1, 0x09, 0x23, 0x33, 0x52, 0xF0, 0x15, 0x62,
        0x72, 0xD1, 0x0A, 0x16, 0x24, 0x34, 0xE1, 0x25, 0xF1, 0x17, 0x18, 0x19, 0x1A, 0x26, 0x27, 0x28,
        0x29, 0x2A, 0x35, 0x36, 0x37, 0x38, 0x39, 0x3A, 0x43, 0x44, 0x45, 0x46, 0x47, 0x48, 0x49, 0x4A,
        0x53, 0x54, 0x55, 0x56, 0x57, 0x58, 0x59, 0x5A, 0x63, 0x64, 0x65, 0x66, 0x67, 0x68, 0x69, 0x6A,
        0x73, 0x74, 0x75, 0x76, 0x77, 0x78, 0x79, 0x7A, 0x82, 0x83, 0x84, 0x85, 0x86, 0x87, 0x88, 0x89,
        0x8A, 0x92, 0x93, 0x94, 0x95, 0x96, 0x97, 0x98, 0x99, 0x9A, 0xA2, 0xA3, 0xA4, 0xA5, 0xA6, 0xA7,
        0xA8, 0xA9, 0xAA, 0xB2, 0xB3, 0xB4, 0xB5, 0xB6, 0xB7, 0xB8, 0xB9, 0xBA, 0xC2, 0xC3, 0xC4, 0xC5,
        0xC6, 0xC7, 0xC8, 0xC9, 0xCA, 0xD2, 0xD3, 0xD4, 0xD5, 0xD6, 0xD7, 0xD8, 0xD9, 0xDA, 0xE2, 0xE3,
        0xE4, 0xE5, 0xE6, 0xE7, 0xE8, 0xE9, 0xEA, 0xF2, 0xF3, 0xF4, 0xF5, 0xF6, 0xF7, 0xF8, 0xF9, 0xFA,
    ];
    assert(v@ =~= standard_dht());
    v
}

/// A frame made readable for strict decoders: unchanged when it already has
/// a DHT segment (FF C4) or has no SOS marker (FF DA); otherwise the
/// standard tables are inserted just before the first SOS marker.
pub open spec fn with_standard_tables(s: Seq<u8>) -> Seq<u8> {
    if has_marker(s, 0xC4) {
        s
    } else {
        match first_marker_from(s, 0xDA, 0) {
            Some(p) => s.take(p) + standard_dht() + s.skip(p),
            None => s,
        }
    }
}

/// Finds the first marker FF `m` in `data`.
pub fn find_marker(data: &[u8], m: u8) -> (r: Option<usize>)
    ensures
        match first_marker_from(data@, m, 0) {
            Some(p) => r == Some(p as usize),
            None => r is None,
        },
        r is None <==> !has_marker(data@, m),
        r matches Some(p) ==> p + 1 < data@.len(),
{
    let n = data.len();
    let mut i: usize = 0;
    while i < n && n - i > 1
        invariant
            i <= n,
            n == data@.len(),
            first_marker_from(data@, m, 0) == first_marker_from(data@, m, i as int),
            forall|k: int| 0 <= k < i && k + 1 < n ==> !(data@[k] == 0xFF && #[trigger] data@[k + 1] == m),
        decreases n - i,
    {
        if data[i] == 0xFF && data[i + 1] == m {
            assert(data@[i as int + 1] == m);
            return Some(i);
        }
        i = i + 1;
    }
    assert forall|k: int| 0 <= k && k + 1 < data@.len() && data@[k] == 0xFF implies #[trigger] data@[k + 1] != m by {
        assert(k < i);
    }
    None
}

/// Injects the standard Huffman tables into an MJPEG frame that lacks
/// them, as `with_standard_tables` says.
pub fn inject_standard_dht(data: &[u8]) -> (out: Vec<u8>)
    requires
        data@.len() + 432 <= usize::MAX,
    ensures
        out@ == with_standard_tables(data@),
{
    let dht = find_marker(data, 0xC4);
    if dht.is_some() {
        return vstd::slice::slice_to_vec(data);
    }
    assert(!has_marker(data@, 0xC4));
    proof {
        lemma_first_marker_is_marker(data@, 0xDA, 0);
    }
    match find_marker(data, 0xDA) {
        Some(sos) => {
            let mut out: Vec<u8> = Vec::with_capacity(data.len() + 432);
            let head = vstd::slice::slice_subrange(data, 0, sos);
            out.extend_from_slice(head);
            let tables = standard_dht_bytes();
            out.extend_from_slice(tables.as_slice());
            let tail = vstd::slice::slice_subrange(data, sos, data.len());
            out.extend_from_slice(tail);
            assert(out@ =~= data@.take(sos as int) + standard_dht() + data@.skip(sos as int));
            assert(first_marker_from(data@, 0xDA, 0) == Some(sos as int));
            out
        },
        None => vstd::slice::slice_to_vec(data),
    }
}

/// The first marker found is one.
proof fn lemma_first_marker_is_marker(s: Seq<u8>, m: u8, from: int)
    ensures
        first_marker_from(s, m, from) matches Some(p) ==> from <= p && p + 1 < s.len() && s[p] == 0xFF
            && s[p + 1] == m,
    decreases s.len() - from,
{
    if !(from < 0 || from + 1 >= s.len()) && !(s[from] == 0xFF && s[from + 1] == m) {
        lemma_first_marker_is_marker(s, m, from + 1);
    }
}

/// Adding the tables is done once: a frame that went through it comes out
/// of it again unchanged.
pub proof fn lemma_tables_idempotent(s: Seq<u8>)
    ensures
        with_standard_tables(with_standard_tables(s)) == with_standard_tables(s),
{
    if !has_marker(s, 0xC4) {
        lemma_first_marker_is_marker(s, 0xDA, 0);
        lemma_standard_dht_facts();
        if let Some(p) = first_marker_from(s, 0xDA, 0) {
            let out = s.take(p) + standard_dht() + s.skip(p);
            assert(out[p] == 0xFF);
            assert(out[p + 1] == 0xC4);
            assert(has_marker(out, 0xC4));
        }
    }
}

/// Only the tables are added: the frame is unchanged, or taking the 432
/// inserted bytes out again gives it back, and the SOS marker follows the
/// tables.
pub proof fn lemma_tables_only_insert(s: Seq<u8>)
    ensures
        with_standard_tables(s) == s || ({
            let p = first_marker_from(s, 0xDA, 0).unwrap();
            let out = with_standard_tables(s);
            &&& out.len() == s.len() + 432
            &&& out.take(p) + out.skip(p + 432) == s
            &&& out[p + 432] == 0xFF && out[p + 433] == 0xDA
        }),
{
    if !has_marker(s, 0xC4) {
        lemma_first_marker_is_marker(s, 0xDA, 0);
        lemma_standard_dht_facts();
        if let Some(p) = first_marker_from(s, 0xDA, 0) {
            let out = s.take(p) + standard_dht() + s.skip(p);
            assert(out.take(p) + out.skip(p + 432) =~= s);
            assert(out[p + 432] == s[p]);
            assert(out[p + 433] == s[p + 1]);
        }
    }
}

} // verus!
