//! Trusted wrappers around `bytes::BytesMut` and `memchr`: the byte buffer
//! that accumulates reads is held in its own crate's type, and each method
//! the codec calls is stated here over the buffer's contents.

use vstd::prelude::*;

verus! {

/// `bytes::BytesMut`, declared so it can stand in signatures; its contents
/// are named by `bytes_of`.
#[verifier::external_type_specification]
#[verifier::external_body]
pub struct ExBytesMut(bytes::BytesMut);

/// The bytes a `BytesMut` holds, oldest first.
pub uninterp spec fn bytes_of(b: bytes::BytesMut) -> Seq<u8>;

/// Relies on `BytesMut::len`: the number of bytes held.
#[verifier::external_body]
pub(crate) fn bm_len(b: &bytes::BytesMut) -> (r: usize)
    ensures
        r == bytes_of(*b).len(),
{
    b.len()
}

/// Relies on `memchr::memchr` over a slice of the buffer: the index it
/// returns (relative to `from`) is the first occurrence of the byte in
/// `[from, to)`, and `None` means the byte is absent there.
#[verifier::external_body]
pub(crate) fn bm_find_byte(b: &bytes::BytesMut, x: u8, from: usize, to: usize) -> (r: Option<usize>)
    requires
        from <= to <= bytes_of(*b).len(),
    ensures
        match r {
            Some(rel) => from + rel < to && bytes_of(*b)[from + rel as int] == x && (forall|j: int|
                from <= j < from + rel ==> bytes_of(*b)[j] != x),
            None => forall|j: int| from <= j < to ==> bytes_of(*b)[j] != x,
        },
{
    memchr::memchr(x, &b[from..to])
}

/// Relies on `BytesMut::split_to`: removes the first `at` bytes and hands
/// them out; the buffer keeps the rest.
#[verifier::external_body]
pub(crate) fn bm_take_front(b: &mut bytes::BytesMut, at: usize) -> (r: Vec<u8>)
    requires
        at <= bytes_of(*old(b)).len(),
    ensures
        r@ == bytes_of(*old(b)).take(at as int),
        bytes_of(*final (b)) == bytes_of(*old(b)).skip(at as int),
{
    b.split_to(at).to_vec()
}

/// Relies on `bytes::Buf::advance` for `BytesMut`: drops the first `cnt`
/// bytes.
#[verifier::external_body]
pub(crate) fn bm_advance(b: &mut bytes::BytesMut, cnt: usize)
    requires
        cnt <= bytes_of(*old(b)).len(),
    ensures
        bytes_of(*final (b)) == bytes_of(*old(b)).skip(cnt as int),
{
    bytes::Buf::advance(b, cnt)
}

/// Relies on `BytesMut::extend_from_slice`: appends the bytes verbatim.
#[verifier::external_body]
pub(crate) fn bm_put(b: &mut bytes::BytesMut, data: &Vec<u8>)
    ensures
        bytes_of(*final (b)) == bytes_of(*old(b)) + data@,
{
    b.extend_from_slice(data.as_slice())
}

} // verus!
