//! Command Status Wrappers: the 13-byte answer that closes every Bulk-Only
//! Transport command.

use vstd::prelude::*;
use crate::bytes_le::{le_u32, le_value, u32_from_le, lemma_le_u32_value};
use crate::cbw::zeros;

verus! {

/// `dCSWSignature`: the bytes "USBS" read as a little-endian number.
pub const CSW_SIGNATURE: u32 = 0x5342_5355;

/// Length of a Command Status Wrapper on the wire.
pub const CSW_LEN: usize = 13;

/// Why a Command Status Wrapper was refused.
#[derive(Debug, Clone, Copy, PartialEq, Eq, Structural)]
pub enum CswError {
    /// Fewer than 13 bytes arrived before the device stopped sending.
    Short { length: usize },
    /// The first four bytes are not "USBS".
    BadSignature { signature: u32 },
    /// The wrapper answers another command than the one sent.
    TagMismatch { received: u32, expected: u32 },
    /// The device reports that the command failed.
    Failed { status: u8 },
}

/// The verdict on a complete 13-byte wrapper: the signature is checked
/// first, then the tag, then the status byte.
pub open spec fn csw_verdict(csw: Seq<u8>, expected_tag: u32) -> Result<(), CswError> {
    if le_value(csw, 0) != CSW_SIGNATURE {
        Err(CswError::BadSignature { signature: le_value(csw, 0) as u32 })
    } else if le_value(csw, 4) != expected_tag {
        Err(CswError::TagMismatch { received: le_value(csw, 4) as u32, expected: expected_tag })
    } else if csw[12] != 0 {
        Err(CswError::Failed { status: csw[12] })
    } else {
        Ok(())
    }
}

/// The wrapper a device sends for command `tag` with status byte `status`
/// (residue zero).
pub open spec fn csw_bytes(tag: u32, status: u8) -> Seq<u8> {
    le_u32(CSW_SIGNATURE) + le_u32(tag) + zeros(4) + seq![status]
}

/// Checks a 13-byte Command Status Wrapper against the tag of the command
/// it answers.
pub fn validate_csw(csw: &[u8], expected_tag: u32) -> (r: Result<(), CswError>)
    requires
        csw@.len() == CSW_LEN,
    ensures
        r == csw_verdict(csw@, expected_tag),
{
    let sig = u32_from_le(csw[0], csw[1], csw[2], csw[3]);
    if sig != CSW_SIGNATURE {
        return Err(CswError::BadSignature { signature: sig });
    }
    let tag = u32_from_le(csw[4], csw[5], csw[6], csw[7]);
    if tag != expected_tag {
        return Err(CswError::TagMismatch { received: tag, expected: expected_tag });
    }
    let status = csw[12];
    if status != 0 {
        return Err(CswError::Failed { status });
    }
    Ok(())
}

/// A status wrapper that echoes the command's tag is accepted exactly when
/// its status byte is zero; one that carries another tag is refused as a
/// tag mismatch.
pub proof fn lemma_csw_echo(tag: u32, status: u8, other: u32)
    ensures
        csw_bytes(tag, status).len() == 13,
        csw_verdict(csw_bytes(tag, status), tag) is Ok <==> status == 0,
        other != tag ==> csw_verdict(csw_bytes(tag, status), other)
            == Err::<(), CswError>(CswError::TagMismatch { received: tag, expected: other }),
{
    let c = csw_bytes(tag, status);
    lemma_le_u32_value(CSW_SIGNATURE);
    lemma_le_u32_value(tag);
    assert(c.subrange(0, 4) =~= le_u32(CSW_SIGNATURE));
    assert(c.subrange(4, 8) =~= le_u32(tag));
    assert(le_value(c, 0) == le_value(le_u32(CSW_SIGNATURE), 0));
    assert(le_value(c, 4) == le_value(le_u32(tag), 0));
}

} // verus!
