//! `Vector<T>`: a tag, a count, and the elements one after another.

use crate::error::{FormatError, MyResult, TlError};
use crate::tl_types::TLType;
use crate::utils::endian::{
    lemma_le_bytes_len, lemma_le_round_trip, lemma_pow256_values, lemma_signed_unsigned, unsigned,
};
use crate::utils::read_bytes::{parse_i32, parse_u32, ByteReader, TlReadBytes};
use crate::utils::write_bytes::{wire_i32, wire_u32, TlWriteBytes};
use vstd::prelude::*;

verus! {

/// The tag that opens every vector.
pub const TL_VECTOR_ID: u32 = 0x1cb5_c415;

/// The largest number of elements that a count can announce.
pub const MAX_VECTOR_LEN: usize = 0x7fff_ffff;

/// The values of `items` as the format sees them.
pub open spec fn models<T: TLType>(items: Seq<T>) -> Seq<T::Model> {
    Seq::new(items.len(), |i: int| items[i].model())
}

/// The encodings of `items`, one after another; the first element without an
/// encoding decides the error.
pub open spec fn elems_encoding<T: TLType>(items: Seq<T::Model>) -> MyResult<Seq<u8>>
    decreases items.len(),
{
    if items.len() == 0 {
        Ok(Seq::empty())
    } else {
        match T::encoding(items[0]) {
            Ok(b) => match elems_encoding::<T>(items.skip(1)) {
                Ok(rest) => Ok(b + rest),
                Err(e) => Err(e),
            },
            Err(e) => Err(e),
        }
    }
}

/// The `count` values at the front of `bytes` and the bytes they take; the
/// first element that does not decode decides the error.
pub open spec fn elems_decoding<T: TLType>(bytes: Seq<u8>, count: nat) -> MyResult<
    (Seq<T::Model>, nat),
>
    decreases count,
{
    if count == 0 {
        Ok((Seq::empty(), 0))
    } else {
        match T::decoding(bytes) {
            Ok((m, n)) => match elems_decoding::<T>(bytes.skip(n as int), (count - 1) as nat) {
                Ok((ms, k)) => Ok((seq![m] + ms, n + k)),
                Err(e) => Err(e),
            },
            Err(e) => Err(e),
        }
    }
}

/// The encoding of a vector of `items`.
pub open spec fn vector_encoding<T: TLType>(items: Seq<T::Model>) -> MyResult<Seq<u8>> {
    if items.len() > MAX_VECTOR_LEN {
        Err(TlError::Format(FormatError::LengthOutOfRange(items.len() as usize)))
    } else {
        match elems_encoding::<T>(items) {
            Ok(body) => Ok(wire_u32(TL_VECTOR_ID) + wire_i32(items.len() as i32) + body),
            Err(e) => Err(e),
        }
    }
}

/// The vector at the front of `bytes`.
pub open spec fn vector_decoding<T: TLType>(bytes: Seq<u8>) -> MyResult<(Seq<T::Model>, nat)> {
    match parse_u32(bytes) {
        Ok((tag, _)) => if tag != TL_VECTOR_ID {
            Err(TlError::Format(FormatError::VectorTag(tag)))
        } else {
            match parse_i32(bytes.skip(4)) {
                Ok((count, _)) => if count < 0 {
                    Err(TlError::Format(FormatError::NegativeCount(count)))
                } else {
                    match elems_decoding::<T>(bytes.skip(8), count as nat) {
                        Ok((ms, n)) => Ok((ms, 8 + n)),
                        Err(e) => Err(e),
                    }
                },
                Err(e) => Err(e),
            }
        },
        Err(e) => Err(e),
    }
}

/// Decoding the elements undoes encoding them, whatever follows.
pub proof fn lemma_elems_round_trip<T: TLType>(items: Seq<T::Model>, rest: Seq<u8>)
    ensures
        elems_encoding::<T>(items) matches Ok(b) ==> elems_decoding::<T>(b + rest, items.len())
            == Ok::<(Seq<T::Model>, nat), TlError>((items, b.len())),
    decreases items.len(),
{
    if items.len() > 0 {
        if let Ok(b) = elems_encoding::<T>(items) {
            let first = T::encoding(items[0])->Ok_0;
            let tail = elems_encoding::<T>(items.skip(1))->Ok_0;
            T::lemma_round_trip(items[0], tail + rest);
            lemma_elems_round_trip::<T>(items.skip(1), rest);
            assert(b + rest =~= first + (tail + rest));
            assert((b + rest).skip(first.len() as int) =~= tail + rest);
            assert(seq![items[0]] + items.skip(1) =~= items);
        }
    } else {
        assert(items =~= Seq::empty());
    }
}

/// The tag and the count are read back from the front of whatever starts
/// with them.
proof fn lemma_head_in_context(count: i32, tail: Seq<u8>)
    ensures
        ({
            let all = wire_u32(TL_VECTOR_ID) + wire_i32(count) + tail;
            &&& parse_u32(all) == Ok::<(u32, nat), TlError>((TL_VECTOR_ID, 4))
            &&& parse_i32(all.skip(4)) == Ok::<(i32, nat), TlError>((count, 4))
            &&& all.skip(8) == tail
            &&& all.len() == 8 + tail.len()
        }),
{
    let all = wire_u32(TL_VECTOR_ID) + wire_i32(count) + tail;
    lemma_pow256_values();
    lemma_signed_unsigned(count as int, 0, 4);
    lemma_le_round_trip(TL_VECTOR_ID as nat, 4, wire_i32(count) + tail);
    lemma_le_round_trip(unsigned(count as int, 4), 4, tail);
    assert(all =~= wire_u32(TL_VECTOR_ID) + (wire_i32(count) + tail));
    assert(all.skip(4) =~= wire_i32(count) + tail);
    assert(all.skip(8) =~= tail);
}

/// The four bytes of the vector tag.
proof fn lemma_tag_bytes()
    ensures
        wire_u32(TL_VECTOR_ID) == seq![0x15u8, 0xc4, 0xb5, 0x1c],
{
    reveal_with_fuel(crate::utils::endian::le_bytes, 5);
    assert(wire_u32(TL_VECTOR_ID) =~= seq![0x15u8, 0xc4, 0xb5, 0x1c]);
}

/// A vector's encoding opens with the tag and the number of its elements.
pub proof fn lemma_vector_header<T: TLType>(items: Seq<T::Model>)
    ensures
        vector_encoding::<T>(items) matches Ok(b) ==> {
            &&& b.len() >= 8
            &&& b.subrange(0, 4) == seq![0x15u8, 0xc4, 0xb5, 0x1c]
            &&& parse_u32(b) == Ok::<(u32, nat), TlError>((TL_VECTOR_ID, 4))
            &&& parse_i32(b.skip(4)) == Ok::<(i32, nat), TlError>((items.len() as i32, 4))
            &&& 0 <= items.len() <= MAX_VECTOR_LEN
        },
{
    if let Ok(b) = vector_encoding::<T>(items) {
        let body = elems_encoding::<T>(items)->Ok_0;
        lemma_head_in_context(items.len() as i32, body);
        lemma_tag_bytes();
        lemma_le_bytes_len(TL_VECTOR_ID as nat, 4);
        assert(b.subrange(0, 4) =~= wire_u32(TL_VECTOR_ID));
    }
}

/// A negative count makes the decoding fail. A vector that decodes holds as
/// many elements as its count says, and all of them were in the data: a
/// count that promises more than the data holds makes the decoding fail.
pub proof fn lemma_vector_count<T: TLType>(bytes: Seq<u8>)
    ensures
        parse_i32(bytes.skip(4)) is Ok && parse_i32(bytes.skip(4))->Ok_0.0 < 0
            ==> vector_decoding::<T>(bytes) is Err,
        vector_decoding::<T>(bytes) matches Ok((ms, n)) ==> parse_i32(bytes.skip(4)) is Ok
            && ms.len() == parse_i32(bytes.skip(4))->Ok_0.0 && n <= bytes.len(),
{
    if let Ok((ms, n)) = vector_decoding::<T>(bytes) {
        let count = parse_i32(bytes.skip(4))->Ok_0.0;
        lemma_elems_count::<T>(bytes.skip(8), count as nat);
    }
}

/// Elements that decode are as many as were asked for, and take no more
/// bytes than there are.
pub proof fn lemma_elems_count<T: TLType>(bytes: Seq<u8>, count: nat)
    ensures
        elems_decoding::<T>(bytes, count) matches Ok((ms, n)) ==> ms.len() == count && n
            <= bytes.len(),
    decreases count,
{
    if count > 0 {
        if let Ok((m, n)) = T::decoding(bytes) {
            T::lemma_decoding_in_bounds(bytes);
            lemma_elems_count::<T>(bytes.skip(n as int), (count - 1) as nat);
        }
    }
}

impl<T: TLType> TLType for Vec<T> {
    type Model = Seq<T::Model>;

    open spec fn model(&self) -> Seq<T::Model> {
        models(self@)
    }

    open spec fn encoding(m: Seq<T::Model>) -> MyResult<Seq<u8>> {
        vector_encoding::<T>(m)
    }

    open spec fn decoding(bytes: Seq<u8>) -> MyResult<(Seq<T::Model>, nat)> {
        vector_decoding::<T>(bytes)
    }

    proof fn lemma_round_trip(m: Seq<T::Model>, rest: Seq<u8>) {
        if let Ok(b) = vector_encoding::<T>(m) {
            let body = elems_encoding::<T>(m)->Ok_0;
            let count = m.len() as i32;
            lemma_elems_round_trip::<T>(m, rest);
            lemma_head_in_context(count, body + rest);
            lemma_head_in_context(count, body);
            assert(b + rest =~= wire_u32(TL_VECTOR_ID) + wire_i32(count) + (body + rest));
        }
    }

    proof fn lemma_decoding_in_bounds(bytes: Seq<u8>) {
        lemma_vector_count::<T>(bytes);
    }

    fn tl_read(input: &mut ByteReader) -> (r: MyResult<Vec<T>>) {
        let ghost bytes = input@.remaining();
        let start = input.position();
        let tag = match input.read_u32() {
            Ok(t) => t,
            Err(e) => {
                return Err(e);
            },
        };
        if tag != TL_VECTOR_ID {
            input.set_position(start);
            return Err(TlError::Format(FormatError::VectorTag(tag)));
        }
        assert(input@.remaining() =~= bytes.skip(4));
        let count = match input.read_i32() {
            Ok(c) => c,
            Err(e) => {
                input.set_position(start);
                return Err(e);
            },
        };
        if count < 0 {
            input.set_position(start);
            return Err(TlError::Format(FormatError::NegativeCount(count)));
        }
        assert(input@.remaining() =~= bytes.skip(8));
        let mut result: Vec<T> = Vec::new();
        let mut i: i32 = 0;
        assert(models(result@) =~= Seq::<T::Model>::empty());
        while i < count
            invariant
                0 <= i <= count,
                input@.in_bounds(),
                bytes == old(input)@.remaining(),
                parse_u32(bytes) == Ok::<(u32, nat), TlError>((TL_VECTOR_ID, 4)),
                parse_i32(bytes.skip(4)) == Ok::<(i32, nat), TlError>((count, 4)),
                input@.source == old(input)@.source,
                input@.offset >= old(input)@.offset + 8,
                start == old(input)@.offset,
                old(input)@.in_bounds(),
                elems_decoding::<T>(bytes.skip(8), count as nat) == (match elems_decoding::<T>(
                    input@.remaining(),
                    (count - i) as nat,
                ) {
                    Ok((ms, n)) => Ok::<(Seq<T::Model>, nat), TlError>(
                        (models(result@) + ms, (input@.offset - start - 8 + n) as nat),
                    ),
                    Err(e) => Err(e),
                }),
            decreases count - i,
        {
            let ghost before = input@;
            let ghost done = models(result@);
            match T::tl_read(input) {
                Ok(item) => {
                    result.push(item);
                    proof {
                        let (m, n) = T::decoding(before.remaining())->Ok_0;
                        assert(input@.remaining() =~= before.remaining().skip(n as int));
                        assert(models(result@) =~= done + seq![m]);
                        match elems_decoding::<T>(input@.remaining(), (count - i - 1) as nat) {
                            Ok((ms, k)) => {
                                assert(done + (seq![m] + ms) =~= models(result@) + ms);
                            },
                            Err(e) => {},
                        }
                    }
                },
                Err(e) => {
                    input.set_position(start);
                    return Err(e);
                },
            }
            i += 1;
        }
        proof {
            assert(models(result@) + Seq::<T::Model>::empty() =~= models(result@));
        }
        Ok(result)
    }

    fn tl_write(&self, output: &mut Vec<u8>) -> (r: MyResult<usize>) {
        let start = output.len();
        let len = self.len();
        if len > MAX_VECTOR_LEN {
            return Err(TlError::Format(FormatError::LengthOutOfRange(len)));
        }
        let _ = output.write_u32(TL_VECTOR_ID);
        let _ = output.write_i32(len as i32);
        let ghost items = models(self@);
        let ghost head = wire_u32(TL_VECTOR_ID) + wire_i32(len as i32);
        let ghost mut body = Seq::<u8>::empty();
        assert(output@ =~= old(output)@ + head + body);
        assert(items.skip(0) =~= items);
        let mut i: usize = 0;
        while i < len
            invariant
                i <= len,
                len == self@.len(),
                len <= MAX_VECTOR_LEN,
                head == wire_u32(TL_VECTOR_ID) + wire_i32(len as i32),
                items == models(self@),
                start == old(output)@.len(),
                output@ == old(output)@ + head + body,
                elems_encoding::<T>(items) == (match elems_encoding::<T>(items.skip(i as int)) {
                    Ok(b) => Ok::<Seq<u8>, TlError>(body + b),
                    Err(e) => Err(e),
                }),
            decreases len - i,
        {
            let ghost before = output@;
            match self[i].tl_write(output) {
                Ok(_) => {
                    proof {
                        let b = T::encoding(items[i as int])->Ok_0;
                        assert(items.skip(i as int)[0] == items[i as int]);
                        assert(items.skip(i as int).skip(1) =~= items.skip(i + 1));
                        match elems_encoding::<T>(items.skip(i + 1)) {
                            Ok(rest) => {
                                assert(body + (b + rest) =~= (body + b) + rest);
                            },
                            Err(e) => {},
                        }
                        body = body + b;
                        assert(output@ =~= old(output)@ + head + body);
                    }
                },
                Err(e) => {
                    proof {
                        assert(items.skip(i as int)[0] == items[i as int]);
                        assert(output@.subrange(0, start as int) =~= old(output)@);
                    }
                    output.truncate(start);
                    return Err(e);
                },
            }
            i += 1;
        }
        proof {
            lemma_le_bytes_len(TL_VECTOR_ID as nat, 4);
            lemma_le_bytes_len(unsigned(len as i32 as int, 4), 4);
            assert(body + Seq::<u8>::empty() =~= body);
            assert(output@ =~= old(output)@ + (head + body));
        }
        Ok(output.len() - start)
    }
}

} // verus!
