//! Encoding of fixed-width big-endian integers, and the `Encode` capability:
//! a value that appends its wire form to a response buffer.

use vstd::prelude::*;

use crate::ext::bm_bytes;
use crate::ext::bm_extend;

verus! {

/// The 2-byte big-endian form of an unsigned 16-bit value.
pub open spec fn be16_bytes(v: u16) -> Seq<u8> {
    seq![(v >> 8) as u8, v as u8]
}

/// The 4-byte big-endian form of an unsigned 32-bit value.
pub open spec fn be32_bytes(v: u32) -> Seq<u8> {
    seq![(v >> 24) as u8, (v >> 16) as u8, (v >> 8) as u8, v as u8]
}

/// The 8-byte big-endian form of an unsigned 64-bit value.
pub open spec fn be64_bytes(v: u64) -> Seq<u8> {
    seq![
        (v >> 56) as u8,
        (v >> 48) as u8,
        (v >> 40) as u8,
        (v >> 32) as u8,
        (v >> 24) as u8,
        (v >> 16) as u8,
        (v >> 8) as u8,
        v as u8,
    ]
}

/// The big-endian bytes of an unsigned 16-bit value.
pub fn u16_to_be(v: u16) -> (r: Vec<u8>)
    ensures
        r@ == be16_bytes(v),
{
    let mut r: Vec<u8> = Vec::new();
    r.push((v >> 8u16) as u8);
    r.push(v as u8);
    proof {
        assert(r@ =~= be16_bytes(v));
    }
    r
}

/// The big-endian bytes of an unsigned 32-bit value.
pub fn u32_to_be(v: u32) -> (r: Vec<u8>)
    ensures
        r@ == be32_bytes(v),
{
    let mut r: Vec<u8> = Vec::new();
    r.push((v >> 24u32) as u8);
    r.push((v >> 16u32) as u8);
    r.push((v >> 8u32) as u8);
    r.push(v as u8);
    proof {
        assert(r@ =~= be32_bytes(v));
    }
    r
}

/// The big-endian bytes of an unsigned 64-bit value.
pub fn u64_to_be(v: u64) -> (r: Vec<u8>)
    ensures
        r@ == be64_bytes(v),
{
    let mut r: Vec<u8> = Vec::new();
    r.push((v >> 56u64) as u8);
    r.push((v >> 48u64) as u8);
    r.push((v >> 40u64) as u8);
    r.push((v >> 32u64) as u8);
    r.push((v >> 24u64) as u8);
    r.push((v >> 16u64) as u8);
    r.push((v >> 8u64) as u8);
    r.push(v as u8);
    proof {
        assert(r@ =~= be64_bytes(v));
    }
    r
}

/// A value that can append its wire form to a response buffer.
pub trait Encode {
    /// The bytes of the value's wire form.
    spec fn sencode(&self) -> Seq<u8>;

    /// Appends the value's wire form to `buf`.
    fn encode(&self, buf: &mut bytes::BytesMut)
        ensures
            bm_bytes(*final(buf)) == bm_bytes(*old(buf)) + self.sencode(),
    ;
}

impl Encode for i32 {
    open spec fn sencode(&self) -> Seq<u8> {
        be32_bytes(*self as u32)
    }

    fn encode(&self, buf: &mut bytes::BytesMut) {
        let bytes = u32_to_be(*self as u32);
        bm_extend(buf, bytes.as_slice());
    }
}

} // verus!
