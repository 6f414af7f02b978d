//! The `bytes` crate: immutable byte buffers.
use bytes::Bytes;
use vstd::prelude::*;

verus! {

/// `bytes::Bytes`, a buffer of bytes that never change.
#[verifier::external_type_specification]
#[verifier::external_body]
pub struct ExBytes(bytes::Bytes);

/// The bytes that a buffer holds, in order.
pub uninterp spec fn bytes_content(buffer: bytes::Bytes) -> Seq<u8>;

/// `Bytes::clone` gives another handle on the same bytes.
pub assume_specification[ <bytes::Bytes as Clone>::clone ](buffer: &bytes::Bytes) -> (r: bytes::Bytes)
    ensures
        bytes_content(r) == bytes_content(*buffer),
;

/// `Bytes::copy_from_slice` makes a buffer that holds a copy of the slice.
#[verifier::external_body]
pub(crate) fn copy_to_bytes(data: &[u8]) -> (r: Bytes)
    ensures
        bytes_content(r) == data@,
{
    Bytes::copy_from_slice(data)
}

/// The `AsRef` view of a buffer is the slice of the bytes that it holds.
#[verifier::external_body]
pub(crate) fn bytes_slice(buffer: &Bytes) -> (r: &[u8])
    ensures
        r@ == bytes_content(*buffer),
{
    buffer.as_ref()
}

} // verus!
