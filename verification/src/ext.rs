//! Declarations and thin wrappers for the outside code the library relies
//! on: the growable byte buffer of the `bytes` crate, in which responses are
//! assembled, and std's UTF-8 validation.  Each wrapper's contract states
//! what the wrapped call does; everything built on top of them is verified
//! against these contracts.

use vstd::prelude::*;

verus! {

#[verifier::external_type_specification]
#[verifier::external_body]
pub struct ExBytesMut(bytes::BytesMut);

/// The bytes currently held by a `bytes::BytesMut` buffer.
pub uninterp spec fn bm_bytes(b: bytes::BytesMut) -> Seq<u8>;

/// Relies on bytes::BytesMut::new: creates a buffer holding no bytes.
#[verifier::external_body]
pub fn bm_new() -> (r: bytes::BytesMut)
    ensures
        bm_bytes(r) == Seq::<u8>::empty(),
{
    bytes::BytesMut::new()
}

/// Relies on bytes::BytesMut::len: the number of bytes the buffer holds.
#[verifier::external_body]
pub fn bm_len(b: &bytes::BytesMut) -> (r: usize)
    ensures
        r == bm_bytes(*b).len(),
{
    b.len()
}

/// Relies on <bytes::BytesMut as AsRef<[u8]>>::as_ref: the held bytes,
/// viewed as a slice.
#[verifier::external_body]
pub fn bm_as_slice(b: &bytes::BytesMut) -> (r: &[u8])
    ensures
        r@ == bm_bytes(*b),
{
    b.as_ref()
}

/// Relies on bytes::BytesMut::extend_from_slice: appends the slice's bytes
/// to the end of the buffer, growing it as needed.
#[verifier::external_body]
pub fn bm_extend(b: &mut bytes::BytesMut, s: &[u8])
    ensures
        bm_bytes(*final(b)) == bm_bytes(*old(b)) + s@,
{
    b.extend_from_slice(s);
}

/// Relies on <bytes::BytesMut as bytes::BufMut>::put_u8: appends one byte to
/// the end of the buffer, growing it as needed.
#[verifier::external_body]
pub fn bm_put_u8(b: &mut bytes::BytesMut, v: u8)
    ensures
        bm_bytes(*final(b)) == bm_bytes(*old(b)).push(v),
{
    bytes::BufMut::put_u8(b, v);
}

/// Relies on std's String::from_utf8: succeeds exactly when the bytes are
/// valid UTF-8, and then returns the string those bytes encode.
#[verifier::external_body]
pub fn string_from_utf8(v: Vec<u8>) -> (r: Option<String>)
    ensures
        r is Some <==> vstd::utf8::valid_utf8(v@),
        r is Some ==> r.unwrap()@ == vstd::utf8::decode_utf8(v@),
{
    match String::from_utf8(v) {
        Ok(s) => Some(s),
        Err(_) => None,
    }
}

} // verus!
