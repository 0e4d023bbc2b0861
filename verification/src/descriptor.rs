//! Choices made from what the USB and disk descriptors say: which device to
//! open, which bulk endpoints to use, which partition to read.

use vstd::prelude::*;

verus! {

/// The transfer type of an endpoint.
#[derive(Debug, Clone, Copy, PartialEq, Eq, Structural)]
pub enum TransferKind {
    Control,
    Isochronous,
    Bulk,
    Interrupt,
}

/// An endpoint of an interface setting.
#[derive(Debug, Clone, Copy, PartialEq, Eq, Structural)]
pub struct EndpointInfo {
    pub address: u8,
    pub kind: TransferKind,
}

/// One alternate setting of an interface, in the order the configuration
/// descriptor lists them.
pub struct AltSettingInfo {
    pub interface_number: u8,
    pub endpoints: Vec<EndpointInfo>,
}

/// Bit 7 of an endpoint address: set for IN endpoints.
pub const ENDPOINT_DIR_MASK: u8 = 0x80;
pub const ENDPOINT_IN: u8 = 0x80;

/// The address of the last bulk endpoint of `eps` in the given direction.
pub open spec fn last_bulk(eps: Seq<EndpointInfo>, input: bool) -> Option<u8>
    decreases eps.len(),
{
    if eps.len() == 0 {
        None
    } else if eps.last().kind == TransferKind::Bulk && ((eps.last().address >= 0x80) == input) {
        Some(eps.last().address)
    } else {
        last_bulk(eps.drop_last(), input)
    }
}

/// The bulk IN and bulk OUT endpoints of a setting (the last of each), if
/// it has both.
pub open spec fn bulk_pair(eps: Seq<EndpointInfo>) -> Option<(u8, u8)> {
    match (last_bulk(eps, true), last_bulk(eps, false)) {
        (Some(i), Some(o)) => Some((i, o)),
        _ => None,
    }
}

/// The bulk pair of the first setting, from index `from` on, of interface
/// `number` that has one.
pub open spec fn find_bulk_from(alts: Seq<AltSettingInfo>, number: u8, from: int) -> Option<(u8, u8)>
    decreases alts.len() - from,
{
    if from >= alts.len() || from < 0 {
        None
    } else if alts[from].interface_number == number && bulk_pair(alts[from].endpoints@) is Some {
        bulk_pair(alts[from].endpoints@)
    } else {
        find_bulk_from(alts, number, from + 1)
    }
}

/// Finds the bulk IN and bulk OUT endpoints of interface `interface_number`:
/// the settings of that interface are tried in order, and the first with
/// both a bulk IN and a bulk OUT endpoint gives the last of each.
pub fn find_bulk_endpoints(alts: &Vec<AltSettingInfo>, interface_number: u8) -> (r: Option<(u8, u8)>)
    ensures
        r == find_bulk_from(alts@, interface_number, 0),
{
    let mut j: usize = 0;
    while j < alts.len()
        invariant
            j <= alts@.len(),
            find_bulk_from(alts@, interface_number, 0) == find_bulk_from(alts@, interface_number, j as int),
        decreases alts@.len() - j,
    {
        if alts[j].interface_number == interface_number {
            let eps = &alts[j].endpoints;
            let mut in_ep: Option<u8> = None;
            let mut out_ep: Option<u8> = None;
            let mut k: usize = 0;
            while k < eps.len()
                invariant
                    k <= eps@.len(),
                    in_ep == last_bulk(eps@.take(k as int), true),
                    out_ep == last_bulk(eps@.take(k as int), false),
                decreases eps@.len() - k,
            {
                let e = eps[k];
                assert(eps@.take(k + 1).drop_last() =~= eps@.take(k as int));
                assert(eps@.take(k + 1).last() == e);
                if e.kind == TransferKind::Bulk {
                    let a = e.address;
                    assert((a & 0x80u8 == 0x80u8) == (a >= 0x80)) by (bit_vector);
                    if a & ENDPOINT_DIR_MASK == ENDPOINT_IN {
                        in_ep = Some(a);
                    } else {
                        out_ep = Some(a);
                    }
                }
                k = k + 1;
            }
            assert(eps@.take(k as int) =~= eps@);
            match (in_ep, out_ep) {
                (Some(i), Some(o)) => {
                    return Some((i, o));
                },
                _ => {},
            }
        }
        j = j + 1;
    }
    None
}

/// The index of the first device with vendor `vid` and product `pid`.
pub open spec fn first_match_from(ids: Seq<(u16, u16)>, vid: u16, pid: u16, from: int) -> Option<int>
    decreases ids.len() - from,
{
    if from >= ids.len() || from < 0 {
        None
    } else if ids[from] == (vid, pid) {
        Some(from)
    } else {
        first_match_from(ids, vid, pid, from + 1)
    }
}

/// Finds the first device, in enumeration order, whose vendor and product
/// ids (given as pairs) are `vid` and `pid`.
pub fn find_device_index(ids: &Vec<(u16, u16)>, vid: u16, pid: u16) -> (r: Option<usize>)
    ensures
        match first_match_from(ids@, vid, pid, 0) {
            Some(i) => r == Some(i as usize),
            None => r is None,
        },
        r matches Some(i) ==> i < ids@.len() && ids@[i as int] == (vid, pid)
            && forall|k: int| 0 <= k < i ==> ids@[k] != (vid, pid),
{
    let mut i: usize = 0;
    while i < ids.len()
        invariant
            i <= ids@.len(),
            first_match_from(ids@, vid, pid, 0) == first_match_from(ids@, vid, pid, i as int),
            forall|k: int| 0 <= k < i ==> ids@[k] != (vid, pid),
        decreases ids@.len() - i,
    {
        let (v, p) = ids[i];
        if v == vid && p == pid {
            return Some(i);
        }
        i = i + 1;
    }
    None
}

/// A primary partition entry of an MBR, with what the reader uses of it.
#[derive(Debug, Clone, Copy, PartialEq, Eq, Structural)]
pub struct PartitionEntry {
    /// Partition type; 0 marks an unused entry.
    pub sys: u8,
    pub starting_lba: u32,
    pub sectors: u32,
}

/// An entry is in use when its type is not 0.
pub open spec fn is_used(p: PartitionEntry) -> bool {
    p.sys > 0
}

/// The first entry, in table order, that is in use.
pub fn first_used_partition(entries: &Vec<PartitionEntry>) -> (r: Option<PartitionEntry>)
    ensures
        r matches Some(p) ==> exists|i: int| 0 <= i < entries@.len() && entries@[i] == p
            && is_used(p) && forall|k: int| 0 <= k < i ==> !is_used(#[trigger] entries@[k]),
        r is None ==> forall|k: int| 0 <= k < entries@.len() ==> !is_used(#[trigger] entries@[k]),
{
    let mut i: usize = 0;
    while i < entries.len()
        invariant
            i <= entries@.len(),
            forall|k: int| 0 <= k < i ==> !is_used(#[trigger] entries@[k]),
        decreases entries@.len() - i,
    {
        let p = entries[i];
        if p.sys > 0 {
            assert(entries@[i as int] == p);
            return Some(p);
        }
        i = i + 1;
    }
    None
}

/// The byte range `[start, end)` that a partition covers on a device with
/// blocks of `block_len` bytes.
pub fn partition_byte_range(p: PartitionEntry, block_len: u32) -> (r: (u64, u64))
    requires
        (p.starting_lba + p.sectors) * block_len <= u64::MAX,
    ensures
        r.0 == p.starting_lba * block_len,
        r.1 == (p.starting_lba + p.sectors) * block_len,
{
    let bl: u64 = block_len as u64;
    let lba: u64 = p.starting_lba as u64;
    let end_lba: u64 = p.starting_lba as u64 + p.sectors as u64;
    assert(lba * bl <= end_lba * bl) by (nonlinear_arith)
        requires lba <= end_lba;
    (lba * bl, end_lba * bl)
}

} // verus!
