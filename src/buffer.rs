//! The stream buffer: `bytes::BytesMut`, seen through what it holds.

use vstd::prelude::*;
use bytes::{Buf, BytesMut};

verus! {

#[verifier::external_type_specification]
#[verifier::external_body]
pub struct ExBytesMut(BytesMut);

/// The bytes a buffer holds, first to last.
pub uninterp spec fn buffered(b: BytesMut) -> Seq<u8>;

/// Relies on `BytesMut`'s `Deref` to `[u8]`: the slice of the bytes it holds.
#[verifier::external_body]
pub fn buf_bytes(b: &BytesMut) -> (r: &[u8])
    ensures
        r@ == buffered(*b),
{
    &b[..]
}

/// Relies on `<BytesMut as Buf>::advance`: drops the first `n` bytes. It
/// panics when `n` is past the end.
#[verifier::external_body]
pub fn buf_advance(b: &mut BytesMut, n: usize)
    requires
        n <= buffered(*old(b)).len(),
    ensures
        buffered(*final(b)) == buffered(*old(b)).subrange(n as int, buffered(*old(b)).len() as int),
{
    b.advance(n)
}

/// Relies on `BytesMut::extend_from_slice`: appends the slice. Growing the
/// buffer past `isize::MAX` bytes panics.
#[verifier::external_body]
pub fn buf_extend(b: &mut BytesMut, s: &[u8])
    requires
        buffered(*old(b)).len() + s@.len() <= isize::MAX,
    ensures
        buffered(*final(b)) == buffered(*old(b)) + s@,
{
    b.extend_from_slice(s)
}

} // verus!
