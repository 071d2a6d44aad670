//! The byte buffer that frames are read from and written to: `bytes::BytesMut`,
//! seen through the sequence of bytes it holds.
use vstd::prelude::*;

verus! {

#[verifier::external_type_specification]
#[verifier::external_body]
pub struct ExBytesMut(bytes::BytesMut);

/// The bytes that a buffer holds, front first.
pub uninterp spec fn buffer_bytes(b: bytes::BytesMut) -> Seq<u8>;

/// Relies on `BytesMut::new`: a new buffer is empty.
pub assume_specification[ bytes::BytesMut::new ]() -> (r: bytes::BytesMut)
    ensures
        buffer_bytes(r) == Seq::<u8>::empty(),
;

/// Relies on `BytesMut::len`: the number of bytes held.
pub assume_specification[ bytes::BytesMut::len ](b: &bytes::BytesMut) -> (r: usize)
    ensures
        r as int == buffer_bytes(*b).len(),
;

/// Relies on `BytesMut::split_to`: the first `at` bytes leave the buffer and are
/// returned; it panics where `at` exceeds the length.
pub assume_specification[ bytes::BytesMut::split_to ](
    b: &mut bytes::BytesMut,
    at: usize,
) -> (r: bytes::BytesMut)
    requires
        at as int <= buffer_bytes(*old(b)).len(),
    ensures
        buffer_bytes(r) == buffer_bytes(*old(b)).take(at as int),
        buffer_bytes(*final(b)) == buffer_bytes(*old(b)).skip(at as int),
;

/// Relies on `BytesMut::extend_from_slice`: the slice is appended at the back.
pub assume_specification[ bytes::BytesMut::extend_from_slice ](
    b: &mut bytes::BytesMut,
    extend: &[u8],
)
    ensures
        buffer_bytes(*final(b)) == buffer_bytes(*old(b)) + extend@,
;

/// Relies on `BytesMut`'s `Deref` to `[u8]`: the byte at position `i`.
#[verifier::external_body]
pub(crate) fn byte_at(b: &bytes::BytesMut, i: usize) -> (r: u8)
    requires
        (i as int) < buffer_bytes(*b).len(),
    ensures
        r == buffer_bytes(*b)[i as int],
{
    b[i]
}

/// Relies on `BytesMut`'s `Deref` to `[u8]`: a copy of the bytes held.
#[verifier::external_body]
pub(crate) fn buffer_to_vec(b: &bytes::BytesMut) -> (r: Vec<u8>)
    ensures
        r@ == buffer_bytes(*b),
{
    b.to_vec()
}

} // verus!
