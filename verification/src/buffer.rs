//! The byte buffer that frames are read from and written to.

use vstd::prelude::*;

verus! {

/// `bytes::BytesMut`, of which contracts speak through [`contents`].
#[verifier::external_type_specification]
#[verifier::external_body]
pub struct ExBytesMut(bytes::BytesMut);

/// The bytes that a `BytesMut` holds.
pub uninterp spec fn contents(b: bytes::BytesMut) -> Seq<u8>;

/// `Deref` of `BytesMut`: the bytes that it holds.
#[verifier::external_body]
pub(crate) fn as_slice(b: &bytes::BytesMut) -> (r: &[u8])
    ensures
        r@ == contents(*b),
{
    b
}

/// `Buf::advance` of `BytesMut` drops the first `n` bytes. It panics where there are fewer.
#[verifier::external_body]
pub(crate) fn advance(b: &mut bytes::BytesMut, n: usize)
    requires
        n <= contents(*old(b)).len(),
    ensures
        contents(*final(b)) == contents(*old(b)).skip(n as int),
{
    bytes::Buf::advance(b, n)
}

/// `BytesMut::split_to` takes the first `n` bytes out. It panics where there are fewer.
#[verifier::external_body]
pub(crate) fn split_to(b: &mut bytes::BytesMut, n: usize) -> (r: bytes::BytesMut)
    requires
        n <= contents(*old(b)).len(),
    ensures
        contents(r) == contents(*old(b)).take(n as int),
        contents(*final(b)) == contents(*old(b)).skip(n as int),
{
    b.split_to(n)
}

/// `BytesMut::extend_from_slice` appends bytes. It panics where a buffer of the new length cannot
/// be allocated at all.
#[verifier::external_body]
pub(crate) fn extend_from_slice(b: &mut bytes::BytesMut, extend: &[u8])
    requires
        contents(*old(b)).len() + extend@.len() <= isize::MAX,
    ensures
        contents(*final(b)) == contents(*old(b)) + extend@,
{
    b.extend_from_slice(extend)
}

} // verus!
