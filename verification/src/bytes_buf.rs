//! The byte buffers of the `bytes` crate, as the command encoders use them.
//!
//! `BytesMut` and `Bytes` are opaque to the verifier; what they hold is named
//! by `bytes_mut_contents` and `bytes_remaining`, and each method that the
//! encoders call has a trusted wrapper whose contract says, over those names,
//! what the method does according to the crate's source.

use vstd::prelude::*;
use bytes::{Buf, BufMut, Bytes, BytesMut};
use crate::bytes_le::{le_u32, be_value};

verus! {

#[verifier::external_type_specification]
#[verifier::external_body]
pub struct ExBytesMut(BytesMut);

#[verifier::external_type_specification]
#[verifier::external_body]
pub struct ExBytes(Bytes);

/// The bytes written into a `BytesMut`, in order.
pub uninterp spec fn bytes_mut_contents(b: BytesMut) -> Seq<u8>;

/// The bytes of a `Bytes` that have not been read yet, in order.
pub uninterp spec fn bytes_remaining(b: Bytes) -> Seq<u8>;

/// `BytesMut::with_capacity`: an empty buffer (it panics only when the
/// capacity exceeds `isize::MAX`).
#[verifier::external_body]
pub(crate) fn bytes_mut_with_capacity(capacity: usize) -> (b: BytesMut)
    requires
        capacity <= isize::MAX,
    ensures
        bytes_mut_contents(b) == Seq::<u8>::empty(),
{
    BytesMut::with_capacity(capacity)
}

/// `BufMut::put_u8` on a `BytesMut`: appends one byte.
#[verifier::external_body]
pub(crate) fn bytes_mut_put_u8(b: &mut BytesMut, n: u8)
    requires
        bytes_mut_contents(*old(b)).len() + 1 <= isize::MAX,
    ensures
        bytes_mut_contents(*final(b)) == bytes_mut_contents(*old(b)).push(n),
{
    b.put_u8(n)
}

/// `BufMut::put_u32_le` on a `BytesMut`: appends the four little-endian
/// bytes of `n`.
#[verifier::external_body]
pub(crate) fn bytes_mut_put_u32_le(b: &mut BytesMut, n: u32)
    requires
        bytes_mut_contents(*old(b)).len() + 4 <= isize::MAX,
    ensures
        bytes_mut_contents(*final(b)) == bytes_mut_contents(*old(b)) + le_u32(n),
{
    b.put_u32_le(n)
}

/// `BufMut::put_slice` on a `BytesMut`: appends the bytes of `src`.
#[verifier::external_body]
pub(crate) fn bytes_mut_put_slice(b: &mut BytesMut, src: &[u8])
    requires
        bytes_mut_contents(*old(b)).len() + src@.len() <= isize::MAX,
    ensures
        bytes_mut_contents(*final(b)) == bytes_mut_contents(*old(b)) + src@,
{
    b.put_slice(src)
}

/// `BufMut::put_bytes` on a `BytesMut`: appends `cnt` copies of `val`.
#[verifier::external_body]
pub(crate) fn bytes_mut_put_bytes(b: &mut BytesMut, val: u8, cnt: usize)
    requires
        bytes_mut_contents(*old(b)).len() + cnt <= isize::MAX,
    ensures
        bytes_mut_contents(*final(b)) == bytes_mut_contents(*old(b)) + Seq::new(cnt as nat, |i: int| val),
{
    b.put_bytes(val, cnt)
}

/// `BytesMut::resize`: truncates to `new_len` bytes, or extends with copies
/// of `value` up to `new_len` bytes.
#[verifier::external_body]
pub(crate) fn bytes_mut_resize(b: &mut BytesMut, new_len: usize, value: u8)
    requires
        new_len <= isize::MAX,
    ensures
        new_len <= bytes_mut_contents(*old(b)).len() ==>
            bytes_mut_contents(*final(b)) == bytes_mut_contents(*old(b)).take(new_len as int),
        new_len > bytes_mut_contents(*old(b)).len() ==>
            bytes_mut_contents(*final(b)) == bytes_mut_contents(*old(b)) + Seq::new(
                (new_len - bytes_mut_contents(*old(b)).len()) as nat, |i: int| value),
{
    b.resize(new_len, value)
}

/// `to_vec` on the slice that a `BytesMut` dereferences to: a copy of its
/// contents.
#[verifier::external_body]
pub(crate) fn bytes_mut_to_vec(b: &BytesMut) -> (v: Vec<u8>)
    ensures
        v@ == bytes_mut_contents(*b),
{
    b.to_vec()
}

/// `Bytes::from(Vec<u8>)`: a buffer whose unread bytes are those of `v`.
#[verifier::external_body]
pub(crate) fn bytes_from_vec(v: Vec<u8>) -> (b: Bytes)
    ensures
        bytes_remaining(b) == v@,
{
    Bytes::from(v)
}

/// `Buf::get_u32` on `Bytes`: reads the next four bytes as a big-endian
/// number and consumes them (it panics when fewer than four remain).
#[verifier::external_body]
pub(crate) fn bytes_get_u32(b: &mut Bytes) -> (x: u32)
    requires
        bytes_remaining(*old(b)).len() >= 4,
    ensures
        x == be_value(bytes_remaining(*old(b)), 0),
        bytes_remaining(*final(b)) == bytes_remaining(*old(b)).skip(4),
{
    b.get_u32()
}

} // verus!
