//! The buffer that collects what arrives, a `bytes::BytesMut`.

use bytes::BytesMut;
use vstd::prelude::*;

verus! {

/// `bytes::BytesMut`, seen only through the functions below.
#[verifier::external_type_specification]
#[verifier::external_body]
pub struct ExBytesMut(BytesMut);

/// The bytes that a buffer holds.
pub uninterp spec fn buffer_bytes(buf: BytesMut) -> Seq<u8>;

/// The room that a new buffer has before it grows.
pub const INITIAL_CAPACITY: usize = 8192;

/// `BytesMut::with_capacity` makes a buffer without bytes.
#[verifier::external_body]
pub(crate) fn new_buffer(capacity: usize) -> (buf: BytesMut)
    requires
        capacity <= INITIAL_CAPACITY,
    ensures
        buffer_bytes(buf) == Seq::<u8>::empty(),
{
    BytesMut::with_capacity(capacity)
}

/// `BytesMut::extend_from_slice` appends the bytes. It panics where the buffer
/// would have to outgrow the largest allocation.
#[verifier::external_body]
pub(crate) fn extend_buffer(buf: &mut BytesMut, data: &[u8])
    requires
        buffer_bytes(*old(buf)).len() + data@.len() <= usize::MAX / 4,
    ensures
        buffer_bytes(*final(buf)) == buffer_bytes(*old(buf)) + data@,
{
    buf.extend_from_slice(data);
}

/// `BytesMut::clear` drops the bytes.
#[verifier::external_body]
pub(crate) fn clear_buffer(buf: &mut BytesMut)
    ensures
        buffer_bytes(*final(buf)) == Seq::<u8>::empty(),
{
    buf.clear();
}

/// `BytesMut::deref` shows the bytes.
#[verifier::external_body]
pub(crate) fn buffer_slice(buf: &BytesMut) -> (r: &[u8])
    ensures
        r@ == buffer_bytes(*buf),
{
    buf
}

} // verus!
