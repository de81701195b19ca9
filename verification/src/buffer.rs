//! Byte buffers of the `bytes` crate, and what the codecs rely on of them.
use bytes::{Buf, BufMut, Bytes, BytesMut};
use vstd::prelude::*;

use crate::bytes_value;

verus! {

/// `bytes::BytesMut`, a growable byte buffer that can be consumed from the front.
#[verifier::external_type_specification]
#[verifier::external_body]
pub struct ExBytesMut(BytesMut);

/// `bytes::Bytes`, an immutable, cheaply sliced run of bytes.
#[verifier::external_type_specification]
#[verifier::external_body]
pub struct ExBytes(Bytes);

/// The bytes that a `BytesMut` holds, front first.
pub uninterp spec fn contents(buf: BytesMut) -> Seq<u8>;

/// The bytes that a `Bytes` holds, front first.
pub uninterp spec fn frozen(run: Bytes) -> Seq<u8>;

/// Whether a buffer can take `more` bytes. A buffer that grows may allocate several times
/// what it holds, and no allocation is larger than `isize::MAX`.
pub open spec fn fits_buffer(held: Seq<u8>, more: nat) -> bool {
    held.len() + more <= isize::MAX as int / 8
}

/// `BytesMut::new`: the buffer is empty.
#[verifier::external_body]
pub(crate) fn new_buffer() -> (r: BytesMut)
    ensures
        contents(r) == Seq::<u8>::empty(),
{
    BytesMut::new()
}

/// `BytesMut` dereferences to the bytes that it holds.
#[verifier::external_body]
pub(crate) fn as_bytes(buf: &BytesMut) -> (r: &[u8])
    ensures
        r@ == contents(*buf),
{
    buf
}

/// `BytesMut::reserve` changes what is allocated, never what is held.
#[verifier::external_body]
pub(crate) fn reserve(buf: &mut BytesMut, additional: usize)
    requires
        fits_buffer(contents(*old(buf)), additional as nat),
    ensures
        contents(*final(buf)) == contents(*old(buf)),
{
    buf.reserve(additional);
}

/// `BytesMut::extend_from_slice` appends the bytes.
#[verifier::external_body]
pub(crate) fn extend_from_slice(buf: &mut BytesMut, data: &[u8])
    requires
        fits_buffer(contents(*old(buf)), data@.len()),
    ensures
        contents(*final(buf)) == contents(*old(buf)) + data@,
{
    buf.extend_from_slice(data);
}

/// `BufMut::put_u8` appends one byte.
#[verifier::external_body]
pub(crate) fn put_u8(buf: &mut BytesMut, n: u8)
    requires
        fits_buffer(contents(*old(buf)), 1),
    ensures
        contents(*final(buf)) == contents(*old(buf)).push(n),
{
    buf.put_u8(n);
}

/// `BufMut::put_u16` appends the number in big-endian order.
#[verifier::external_body]
pub(crate) fn put_u16(buf: &mut BytesMut, n: u16)
    requires
        fits_buffer(contents(*old(buf)), 2),
    ensures
        contents(*final(buf)) == contents(*old(buf)) + bytes_value::be_bytes(n as nat, 2),
{
    buf.put_u16(n);
}

/// `BufMut::put_u64` appends the number in big-endian order.
#[verifier::external_body]
pub(crate) fn put_u64(buf: &mut BytesMut, n: u64)
    requires
        fits_buffer(contents(*old(buf)), 8),
    ensures
        contents(*final(buf)) == contents(*old(buf)) + bytes_value::be_bytes(n as nat, 8),
{
    buf.put_u64(n);
}

/// `Buf::advance` drops the first `cnt` bytes. It panics past the end.
#[verifier::external_body]
pub(crate) fn advance(buf: &mut BytesMut, cnt: usize)
    requires
        cnt <= contents(*old(buf)).len(),
    ensures
        contents(*final(buf)) == contents(*old(buf)).skip(cnt as int),
{
    buf.advance(cnt);
}

/// `BytesMut::clear` drops all bytes.
#[verifier::external_body]
pub(crate) fn clear(buf: &mut BytesMut)
    ensures
        contents(*final(buf)) == Seq::<u8>::empty(),
{
    buf.clear();
}

/// `BytesMut::split_to` hands out the first `at` bytes and keeps the rest. It panics past
/// the end.
#[verifier::external_body]
pub(crate) fn split_to(buf: &mut BytesMut, at: usize) -> (r: BytesMut)
    requires
        at <= contents(*old(buf)).len(),
    ensures
        contents(r) == contents(*old(buf)).take(at as int),
        contents(*final(buf)) == contents(*old(buf)).skip(at as int),
{
    buf.split_to(at)
}

/// `BytesMut::freeze` keeps the bytes.
#[verifier::external_body]
pub(crate) fn freeze(buf: BytesMut) -> (r: Bytes)
    ensures
        frozen(r) == contents(buf),
{
    buf.freeze()
}

/// `Bytes::slice` over a half-open range. It panics on a range that is reversed or out of
/// bounds.
#[verifier::external_body]
pub(crate) fn slice(run: &Bytes, from: usize, to: usize) -> (r: Bytes)
    requires
        from <= to <= frozen(*run).len(),
    ensures
        frozen(r) == frozen(*run).subrange(from as int, to as int),
{
    run.slice(from..to)
}

/// `Bytes` dereferences to the bytes that it holds.
#[verifier::external_body]
pub(crate) fn run_bytes(run: &Bytes) -> (r: &[u8])
    ensures
        r@ == frozen(*run),
{
    run
}

/// `Buf::get_u64` on a slice reads eight bytes in big-endian order and steps over them. It
/// panics on a shorter slice.
#[verifier::external_body]
pub(crate) fn get_u64(rest: &mut &[u8]) -> (r: u64)
    requires
        old(rest)@.len() >= 8,
    ensures
        r == bytes_value::be_value(old(rest)@.take(8)),
        final(rest)@ == old(rest)@.skip(8),
{
    rest.get_u64()
}

/// `Buf::get_u8` on a slice reads one byte and steps over it. It panics on an empty slice.
#[verifier::external_body]
pub(crate) fn get_u8(rest: &mut &[u8]) -> (r: u8)
    requires
        old(rest)@.len() >= 1,
    ensures
        r == old(rest)@[0],
        final(rest)@ == old(rest)@.skip(1),
{
    rest.get_u8()
}

} // verus!
