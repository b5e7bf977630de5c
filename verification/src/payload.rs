//! The bytes of a payload, shared without copying.
use bytes::Bytes;
use vstd::prelude::*;

verus! {

/// Declares `bytes::Bytes`, a slice of shared bytes.
#[verifier::external_type_specification]
#[verifier::external_body]
pub struct ExBytes(Bytes);

/// The bytes that a `Bytes` holds.
pub uninterp spec fn bytes_of(bytes: Bytes) -> Seq<u8>;

/// `Bytes::new`: no bytes.
pub assume_specification[ Bytes::new ]() -> (r: Bytes)
    ensures
        bytes_of(r) == Seq::<u8>::empty(),
;

/// `Bytes::len`: how many bytes there are. They stand in one slice, which in Rust never spans more
/// than `isize::MAX` bytes.
pub assume_specification[ Bytes::len ](bytes: &Bytes) -> (r: usize)
    ensures
        r == bytes_of(*bytes).len(),
        r <= isize::MAX,
;

/// `Bytes::is_empty`: whether there are no bytes.
pub assume_specification[ Bytes::is_empty ](bytes: &Bytes) -> (r: bool)
    ensures
        r == (bytes_of(*bytes).len() == 0),
;

/// `Bytes::clone`: another handle on the same bytes.
pub assume_specification[ <Bytes as Clone>::clone ](bytes: &Bytes) -> (r: Bytes)
    ensures
        bytes_of(r) == bytes_of(*bytes),
;

/// `Bytes::truncate`: keeps the first `len` bytes, or all if there are no more.
pub assume_specification[ Bytes::truncate ](bytes: &mut Bytes, len: usize)
    ensures
        bytes_of(*final(bytes)) == (if len <= bytes_of(*old(bytes)).len() {
            bytes_of(*old(bytes)).subrange(0, len as int)
        } else {
            bytes_of(*old(bytes))
        }),
;

/// `Bytes::as_ref`: the bytes as a slice, which in Rust never spans more than `isize::MAX` bytes.
#[verifier::external_body]
pub(crate) fn as_slice(bytes: &Bytes) -> (r: &[u8])
    ensures
        r@ == bytes_of(*bytes),
        r@.len() <= isize::MAX,
{
    bytes.as_ref()
}

/// `Bytes::slice`: another handle on the bytes from `start` up to `end`.
#[verifier::external_body]
pub(crate) fn slice(bytes: &Bytes, start: usize, end: usize) -> (r: Bytes)
    requires
        start <= end <= bytes_of(*bytes).len(),
    ensures
        bytes_of(r) == bytes_of(*bytes).subrange(start as int, end as int),
{
    bytes.slice(start..end)
}

/// The first `limit` bytes of a payload, or all of it if there are no more.
pub fn cut_off(payload: Bytes, limit: usize) -> (r: Bytes)
    ensures
        bytes_of(r) == (if bytes_of(payload).len() <= limit {
            bytes_of(payload)
        } else {
            bytes_of(payload).take(limit as int)
        }),
{
    let mut payload = payload;
    let length: usize = if payload.len() < limit {
        payload.len()
    } else {
        limit
    };
    payload.truncate(length);
    payload
}

} // verus!
