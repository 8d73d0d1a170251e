use tokio_util::bytes::BytesMut;
use vstd::prelude::*;

verus! {

#[verifier::external_type_specification]
#[verifier::external_body]
pub struct ExBytesMut(BytesMut);

/// The bytes that a buffer holds, in order.
pub uninterp spec fn bytes_of(b: BytesMut) -> Seq<u8>;

/// Relies on BytesMut::len: the number of bytes held.
#[verifier::external_body]
pub(crate) fn buf_len(b: &BytesMut) -> (r: usize)
    ensures
        r as nat == bytes_of(*b).len(),
{
    b.len()
}

/// Relies on indexing the slice that BytesMut dereferences to.
#[verifier::external_body]
pub(crate) fn buf_byte(b: &BytesMut, i: usize) -> (r: u8)
    requires
        (i as nat) < bytes_of(*b).len(),
    ensures
        r == bytes_of(*b)[i as int],
{
    b[i]
}

/// Relies on Buf::advance for BytesMut: drops the first `n` bytes; it
/// panics when `n` exceeds the length.
#[verifier::external_body]
pub(crate) fn buf_advance(b: &mut BytesMut, n: usize)
    requires
        (n as nat) <= bytes_of(*old(b)).len(),
    ensures
        bytes_of(*final(b)) == bytes_of(*old(b)).subrange(n as int, bytes_of(*old(b)).len() as int),
{
    tokio_util::bytes::Buf::advance(b, n)
}

/// Relies on BytesMut::split_to, copied out with slice::to_vec: the first `n`
/// bytes are returned and removed; it panics when `n` exceeds the length.
#[verifier::external_body]
pub(crate) fn buf_take_front(b: &mut BytesMut, n: usize) -> (r: Vec<u8>)
    requires
        (n as nat) <= bytes_of(*old(b)).len(),
    ensures
        r@ == bytes_of(*old(b)).subrange(0, n as int),
        bytes_of(*final(b)) == bytes_of(*old(b)).subrange(n as int, bytes_of(*old(b)).len() as int),
{
    b.split_to(n).to_vec()
}

/// Relies on BytesMut::extend_from_slice: the bytes are appended; it panics
/// when the grown capacity would overflow.
#[verifier::external_body]
pub(crate) fn buf_extend(b: &mut BytesMut, s: &[u8])
    requires
        bytes_of(*old(b)).len() + s@.len() <= isize::MAX as nat,
    ensures
        bytes_of(*final(b)) == bytes_of(*old(b)) + s@,
{
    b.extend_from_slice(s)
}

} // verus!
