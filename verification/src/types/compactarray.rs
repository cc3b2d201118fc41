//! Compact arrays: a varint prefix holding the element count plus one,
//! followed by that many self-decoding elements decoded from the advancing
//! buffer cursor.  Decoding yields either the full declared element count or
//! an error, never a silently truncated array.

use vstd::prelude::*;
use vstd::slice::slice_subrange;
use vstd::utf8::encode_utf8;

use crate::ext::bm_bytes;
use crate::ext::bm_put_u8;
use crate::rpc::decode::Decode;
use crate::rpc::encode::Encode;
use crate::types::compactstring::compact_string_spec;
use crate::types::compactstring::lemma_compact_string_round_trip;
use crate::types::compactstring::CompactString;
use crate::types::compactstring::CompactValueParseError;
use crate::types::decode_varint;
use crate::types::varint_decode;
use crate::types::varint_encode;
use crate::types::Offset;

verus! {

/// An ordered sequence of elements decoded from a compact array's wire form.
#[derive(Debug)]
pub struct CompactArray<T> {
    pub elements: Vec<T>,
}

/// True when `elems` are exactly the `count` values decoded one after
/// another from the front of `data`, together consuming `used` bytes.
pub open spec fn elems_decoded<T: Decode<T> + Offset>(
    data: Seq<u8>,
    count: nat,
    elems: Seq<T>,
    used: int,
) -> bool
    decreases count,
{
    if count == 0 {
        elems.len() == 0 && used == 0
    } else {
        &&& elems.len() == count
        &&& T::sdecode_ok(data)
        &&& T::sdecoded(data, elems[0])
        &&& elems[0].soffset() == T::sconsumed(data)
        &&& 1 <= T::sconsumed(data) <= data.len()
        &&& elems_decoded::<T>(
            data.skip(T::sconsumed(data)),
            (count - 1) as nat,
            elems.drop_first(),
            used - T::sconsumed(data),
        )
    }
}

/// True when `count` values can be decoded one after another from the front
/// of `data` without running past its end.
pub open spec fn elems_decodable<T: Decode<T> + Offset>(data: Seq<u8>, count: nat) -> bool
    decreases count,
{
    count == 0 || {
        &&& T::sdecode_ok(data)
        &&& 1 <= T::sconsumed(data) <= data.len()
        &&& elems_decodable::<T>(data.skip(T::sconsumed(data)), (count - 1) as nat)
    }
}

/// The total number of bytes that `count` consecutive element decodes from
/// the front of `data` consume.
pub open spec fn elems_used<T: Decode<T> + Offset>(data: Seq<u8>, count: nat) -> int
    decreases count,
{
    if count == 0 {
        0
    } else {
        T::sconsumed(data) + elems_used::<T>(data.skip(T::sconsumed(data)), (count - 1) as nat)
    }
}

/// A successful decode of `count` elements consumes exactly `elems_used`
/// bytes, whatever the decoded values are.
pub proof fn lemma_elems_decoded_used<T: Decode<T> + Offset>(
    data: Seq<u8>,
    count: nat,
    elems: Seq<T>,
    used: int,
)
    requires
        elems_decoded::<T>(data, count, elems, used),
    ensures
        used == elems_used::<T>(data, count),
    decreases count,
{
    if count > 0 {
        lemma_elems_decoded_used::<T>(
            data.skip(T::sconsumed(data)),
            (count - 1) as nat,
            elems.drop_first(),
            used - T::sconsumed(data),
        );
    }
}

proof fn lemma_elems_decoded_bounds<T: Decode<T> + Offset>(
    data: Seq<u8>,
    count: nat,
    elems: Seq<T>,
    used: int,
)
    requires
        elems_decoded::<T>(data, count, elems, used),
    ensures
        0 <= used <= data.len(),
    decreases count,
{
    if count > 0 {
        lemma_elems_decoded_bounds::<T>(
            data.skip(T::sconsumed(data)),
            (count - 1) as nat,
            elems.drop_first(),
            used - T::sconsumed(data),
        );
    }
}

proof fn lemma_elems_decoded_push<T: Decode<T> + Offset>(
    data: Seq<u8>,
    count: nat,
    elems: Seq<T>,
    used: int,
    v: T,
)
    requires
        elems_decoded::<T>(data, count, elems, used),
        T::sdecode_ok(data.skip(used)),
        T::sdecoded(data.skip(used), v),
        v.soffset() == T::sconsumed(data.skip(used)),
        1 <= T::sconsumed(data.skip(used)) <= data.skip(used).len(),
    ensures
        elems_decoded::<T>(data, count + 1, elems.push(v), used + T::sconsumed(data.skip(used))),
    decreases count,
{
    lemma_elems_decoded_bounds::<T>(data, count, elems, used);
    if count == 0 {
        assert(data.skip(0) =~= data);
        assert(elems.push(v)[0] == v);
        assert(elems.push(v).drop_first() =~= Seq::<T>::empty());
        let c = T::sconsumed(data);
        assert(elems_decoded::<T>(data.skip(c), 0, elems.push(v).drop_first(), 0));
        assert(elems_decoded::<T>(data, count + 1, elems.push(v), used + T::sconsumed(data.skip(used))));
    } else {
        let c0 = T::sconsumed(data);
        lemma_elems_decoded_bounds::<T>(
            data.skip(c0),
            (count - 1) as nat,
            elems.drop_first(),
            used - c0,
        );
        assert(data.skip(c0).skip(used - c0) =~= data.skip(used));
        assert(elems.push(v)[0] == elems[0]);
        assert(elems.push(v).drop_first() =~= elems.drop_first().push(v));
        lemma_elems_decoded_push::<T>(
            data.skip(c0),
            (count - 1) as nat,
            elems.drop_first(),
            used - c0,
            v,
        );
        assert(T::sconsumed(data.skip(c0).skip(used - c0)) == T::sconsumed(data.skip(used)));
        assert(elems_decoded::<T>(
            data.skip(c0),
            count,
            elems.drop_first().push(v),
            (used - c0) + T::sconsumed(data.skip(used)),
        ));
        assert(elems_decoded::<T>(data, count + 1, elems.push(v), used + T::sconsumed(data.skip(used))));
    }
}

proof fn lemma_elems_decoded_decodable<T: Decode<T> + Offset>(
    data: Seq<u8>,
    count: nat,
    elems: Seq<T>,
    used: int,
)
    requires
        elems_decoded::<T>(data, count, elems, used),
    ensures
        elems_decodable::<T>(data, count),
    decreases count,
{
    if count > 0 {
        lemma_elems_decoded_decodable::<T>(
            data.skip(T::sconsumed(data)),
            (count - 1) as nat,
            elems.drop_first(),
            used - T::sconsumed(data),
        );
    }
}

proof fn lemma_elems_not_decodable<T: Decode<T> + Offset>(
    data: Seq<u8>,
    count: nat,
    k: nat,
    elems: Seq<T>,
    used: int,
)
    requires
        k < count,
        elems_decoded::<T>(data, k, elems, used),
        !T::sdecode_ok(data.skip(used)) || !(1 <= T::sconsumed(data.skip(used)) <= data.skip(
            used,
        ).len()),
    ensures
        !elems_decodable::<T>(data, count),
    decreases k,
{
    if k == 0 {
        assert(data.skip(0) =~= data);
    } else {
        let c0 = T::sconsumed(data);
        lemma_elems_decoded_bounds::<T>(
            data.skip(c0),
            (k - 1) as nat,
            elems.drop_first(),
            used - c0,
        );
        assert(data.skip(c0).skip(used - c0) =~= data.skip(used));
        lemma_elems_not_decodable::<T>(
            data.skip(c0),
            (count - 1) as nat,
            (k - 1) as nat,
            elems.drop_first(),
            used - c0,
        );
    }
}

impl<T: Decode<T> + Offset> CompactArray<T> {
    /// Decodes a compact array from the front of `buf`: a varint declaring
    /// the element count plus one, then that many elements one after
    /// another.  Returns the elements together with the byte offset just
    /// past the last one.  If the buffer runs out before the declared count
    /// is reached, or any element is malformed, the whole decode fails.
    pub fn new(buf: &[u8]) -> (r: Result<(Self, usize), CompactValueParseError>)
        ensures
            r matches Ok((arr, used)) ==> (varint_decode(buf@) matches Some((count, n))
                && count >= 1 && arr.elements@.len() == count - 1 && elems_decoded::<T>(
                buf@.skip(n),
                (count - 1) as nat,
                arr.elements@,
                used - n,
            ) && used - n == elems_used::<T>(buf@.skip(n), (count - 1) as nat) && n <= used
                <= buf@.len()),
            r is Ok <==> (varint_decode(buf@) matches Some((count, n)) && count >= 1
                && elems_decodable::<T>(buf@.skip(n), (count - 1) as nat)),
            r matches Err(e) ==> e == CompactValueParseError::InvalidVarint,
    {
        let buf_len = buf.len();
        let (length, size) = decode_varint(buf)?;
        if length == 0 {
            return Err(CompactValueParseError::InvalidVarint);
        }
        let count = length - 1;
        let mut elements: Vec<T> = Vec::new();
        let mut ptr: usize = size;
        let mut j: u64 = 0;

        proof {
            assert(buf@.len() == buf_len);
        }

        while j < count
            invariant
                varint_decode(buf@) == Some((length, size as int)),
                length >= 1,
                count == length - 1,
                1 <= size <= buf@.len(),
                buf_len == buf@.len(),
                j <= count,
                elements@.len() == j,
                size <= ptr <= buf@.len(),
                elems_decoded::<T>(buf@.skip(size as int), j as nat, elements@, ptr - size),
            decreases count - j,
        {
            proof {
                assert(buf@.skip(size as int).skip(ptr - size) =~= buf@.skip(ptr as int));
            }
            if ptr >= buf.len() {
                proof {
                    lemma_elems_not_decodable::<T>(
                        buf@.skip(size as int),
                        count as nat,
                        j as nat,
                        elements@,
                        ptr - size,
                    );
                }
                return Err(CompactValueParseError::InvalidVarint);
            }
            let curr = slice_subrange(buf, ptr, buf_len);
            proof {
                assert(curr@ =~= buf@.skip(ptr as int));
            }
            match T::decode(curr) {
                Ok(decoded) => {
                    let off = decoded.get_offset();
                    proof {
                        lemma_elems_decoded_push::<T>(
                            buf@.skip(size as int),
                            j as nat,
                            elements@,
                            ptr - size,
                            decoded,
                        );
                    }
                    ptr = ptr + off as usize;
                    elements.push(decoded);
                    j = j + 1;
                },
                Err(_) => {
                    proof {
                        lemma_elems_not_decodable::<T>(
                            buf@.skip(size as int),
                            count as nat,
                            j as nat,
                            elements@,
                            ptr - size,
                        );
                    }
                    return Err(CompactValueParseError::InvalidVarint);
                },
            }
        }

        proof {
            lemma_elems_decoded_decodable::<T>(
                buf@.skip(size as int),
                count as nat,
                elements@,
                ptr - size,
            );
            lemma_elems_decoded_used::<T>(
                buf@.skip(size as int),
                count as nat,
                elements@,
                ptr - size,
            );
        }
        Ok((CompactArray { elements }, ptr))
    }
}

impl<T> Encode for CompactArray<T> {
    open spec fn sencode(&self) -> Seq<u8> {
        if self.elements@.len() < 1 {
            seq![1u8]
        } else {
            Seq::empty()
        }
    }

    fn encode(&self, buf: &mut bytes::BytesMut) {
        if self.elements.len() < 1 {
            bm_put_u8(buf, 1);
            proof {
                assert(bm_bytes(*buf) =~= bm_bytes(*old(buf)) + self.sencode());
            }
        } else {
            proof {
                assert(bm_bytes(*buf) =~= bm_bytes(*old(buf)) + self.sencode());
            }
        }
    }
}

/// The concatenation of a sequence of byte chunks.
pub open spec fn concat_bytes(chunks: Seq<Seq<u8>>) -> Seq<u8>
    decreases chunks.len(),
{
    if chunks.len() == 0 {
        Seq::empty()
    } else {
        chunks[0] + concat_bytes(chunks.drop_first())
    }
}

/// The compact-string encoding of a string: the varint of its UTF-8 byte
/// length followed by those bytes.
pub open spec fn compact_string_bytes(s: Seq<char>) -> Seq<u8> {
    varint_encode(encode_utf8(s).len() as u64) + encode_utf8(s)
}

proof fn lemma_string_elems_round_trip(strings: Seq<Seq<char>>, rest: Seq<u8>)
    requires
        forall|i: int| 0 <= i < strings.len() ==> #[trigger] encode_utf8(strings[i]).len()
            <= u64::MAX,
    ensures
        ({
            let chunks = Seq::new(strings.len(), |i: int| compact_string_bytes(strings[i]));
            let data = concat_bytes(chunks) + rest;
            &&& elems_decodable::<CompactString>(data, strings.len())
            &&& forall|elems: Seq<CompactString>, used: int|
                #[trigger] elems_decoded::<CompactString>(data, strings.len(), elems, used) ==> (
                used == concat_bytes(chunks).len() && forall|i: int|
                    0 <= i < strings.len() ==> #[trigger] elems[i].value@ == strings[i])
        }),
    decreases strings.len(),
{
    let chunks = Seq::new(strings.len(), |i: int| compact_string_bytes(strings[i]));
    let data = concat_bytes(chunks) + rest;
    if strings.len() == 0 {
        assert(forall|elems: Seq<CompactString>, used: int|
            #[trigger] elems_decoded::<CompactString>(data, strings.len(), elems, used) ==> (used
                == 0 && elems.len() == 0));
        assert(concat_bytes(chunks).len() == 0);
    } else {
        let s0 = strings[0];
        let b0 = encode_utf8(s0);
        let chunk0 = compact_string_bytes(s0);
        let tail_strings = strings.drop_first();
        let tail_chunks = Seq::new(tail_strings.len(), |i: int| compact_string_bytes(
            tail_strings[i],
        ));
        let tail_data = concat_bytes(tail_chunks) + rest;

        assert(chunks.drop_first() =~= tail_chunks);
        assert(chunks[0] == chunk0);
        assert(data =~= chunk0 + tail_data);

        lemma_compact_string_round_trip(s0, concat_bytes(tail_chunks) + rest);
        assert(varint_encode(b0.len() as u64) + b0 + (concat_bytes(tail_chunks) + rest)
            =~= data);
        assert(compact_string_spec(data) == Some((b0, chunk0.len() as int)));
        assert(data.skip(chunk0.len() as int) =~= tail_data);

        lemma_string_elems_round_trip(tail_strings, rest);

        assert forall|elems: Seq<CompactString>, used: int|
            #[trigger] elems_decoded::<CompactString>(data, strings.len(), elems, used) implies (
        used == concat_bytes(chunks).len() && forall|i: int|
            0 <= i < strings.len() ==> #[trigger] elems[i].value@ == strings[i]) by {
            assert(elems_decoded::<CompactString>(
                tail_data,
                tail_strings.len(),
                elems.drop_first(),
                used - chunk0.len(),
            ));
            assert(elems[0].value@ == s0);
            assert forall|i: int| 0 <= i < strings.len() implies #[trigger] elems[i].value@
                == strings[i] by {
                if i > 0 {
                    assert(elems.drop_first()[i - 1].value@ == tail_strings[i - 1]);
                }
            }
        }
    }
}

/// Law: a compact array holds exactly the elements that were encoded, in
/// their original order.  For any sequence of strings, a buffer built from
/// the varint of the string count plus one, followed by each string's
/// compact encoding in turn, declares that count, its elements are all
/// decodable, and every decode of them yields exactly the original strings
/// in their original order, consuming exactly the encoded element bytes —
/// whatever bytes follow.  That a truncated buffer yields an error rather
/// than a partial array is part of `CompactArray::new`'s contract.
pub proof fn lemma_compact_array_round_trip(strings: Seq<Seq<char>>, rest: Seq<u8>)
    requires
        strings.len() + 1 <= u64::MAX,
        forall|i: int| 0 <= i < strings.len() ==> #[trigger] encode_utf8(strings[i]).len()
            <= u64::MAX,
    ensures
        ({
            let chunks = Seq::new(strings.len(), |i: int| compact_string_bytes(strings[i]));
            let pre = varint_encode((strings.len() + 1) as u64);
            let data = pre + concat_bytes(chunks) + rest;
            &&& varint_decode(data) == Some(
                ((strings.len() + 1) as u64, pre.len() as int),
            )
            &&& elems_decodable::<CompactString>(data.skip(pre.len() as int), strings.len())
            &&& forall|elems: Seq<CompactString>, used: int|
                #[trigger] elems_decoded::<CompactString>(
                    data.skip(pre.len() as int),
                    strings.len(),
                    elems,
                    used,
                ) ==> (elems.len() == strings.len() && used == concat_bytes(chunks).len()
                    && forall|i: int| 0 <= i < strings.len() ==> #[trigger] elems[i].value@
                    == strings[i])
        }),
{
    let chunks = Seq::new(strings.len(), |i: int| compact_string_bytes(strings[i]));
    let pre = varint_encode((strings.len() + 1) as u64);
    let data = pre + concat_bytes(chunks) + rest;
    crate::types::lemma_varint_round_trip((strings.len() + 1) as u64, concat_bytes(chunks) + rest);
    assert(pre + (concat_bytes(chunks) + rest) =~= data);
    assert(data.skip(pre.len() as int) =~= concat_bytes(chunks) + rest);
    lemma_string_elems_round_trip(strings, rest);
}

} // verus!
