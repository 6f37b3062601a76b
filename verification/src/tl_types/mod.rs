//! The codec contract, and the codecs of the built-in wire types.

use crate::error::{MyResult, TlError};
use crate::utils::read_bytes::ByteReader;
use vstd::prelude::*;

pub mod tl_16_bytes;
pub mod tl_32_bytes;
pub mod tl_bool;
pub mod tl_bytes;
pub mod tl_double;
pub mod tl_i32;
pub mod tl_i64;
pub mod tl_int;
pub mod tl_long;
pub mod tl_string;
pub mod tl_u32;
pub mod tl_u64;
pub mod tl_vector;

verus! {

/// A type with a place in the wire format.
///
/// `encoding` and `decoding` say what the format is; `tl_write` and `tl_read`
/// carry it out on a byte sink and a byte source. Whoever implements the
/// trait owes the proof that decoding undoes encoding.
pub trait TLType: Sized {
    /// What a value is to the format.
    type Model;

    /// The value as the format sees it.
    spec fn model(&self) -> Self::Model;

    /// The bytes that stand for `m`, or why it has no encoding.
    spec fn encoding(m: Self::Model) -> MyResult<Seq<u8>>;

    /// The value at the front of `bytes` and the number of bytes it takes, or
    /// why there is none.
    spec fn decoding(bytes: Seq<u8>) -> MyResult<(Self::Model, nat)>;

    /// Decoding what was encoded gives the value back, and consumes exactly
    /// its encoding, whatever follows it.
    proof fn lemma_round_trip(m: Self::Model, rest: Seq<u8>)
        ensures
            Self::encoding(m) matches Ok(b) ==> Self::decoding(b + rest) == Ok::<
                (Self::Model, nat),
                TlError,
            >((m, b.len())),
    ;

    /// A decoding takes no more bytes than there are.
    proof fn lemma_decoding_in_bounds(bytes: Seq<u8>)
        ensures
            Self::decoding(bytes) matches Ok((_, n)) ==> n <= bytes.len(),
    ;

    /// Takes one value from the source. A failed read leaves the source where
    /// it was.
    fn tl_read(input: &mut ByteReader) -> (r: MyResult<Self>)
        ensures
            final(input)@.in_bounds(),
            match Self::decoding(old(input)@.remaining()) {
                Ok((m, n)) => r is Ok && r->Ok_0.model() == m && final(input)@ == old(
                    input,
                )@.advance(n),
                Err(e) => r is Err && r->Err_0 == e && final(input)@ == old(input)@,
            },
    ;

    /// Appends the value's encoding to the sink and returns its length. A
    /// failed write leaves the sink as it was.
    fn tl_write(&self, output: &mut Vec<u8>) -> (r: MyResult<usize>)
        ensures
            match Self::encoding(self.model()) {
                Ok(b) => r == Ok::<usize, TlError>(b.len() as usize) && final(output)@ == old(
                    output,
                )@ + b,
                Err(e) => r == Err::<usize, TlError>(e) && final(output)@ == old(output)@,
            },
    ;
}

} // verus!
