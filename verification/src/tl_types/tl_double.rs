//! `double`: the eight bytes of an IEEE-754 number, little-endian.
//!
//! The codec moves the number's bit pattern; what the pattern means as a
//! floating-point number is the caller's to say.

use crate::error::MyResult;
use crate::tl_types::TLType;
use crate::utils::read_bytes::ByteReader;
use vstd::prelude::*;

verus! {

/// A 64-bit floating-point number of the wire format, held as its bits.
#[derive(Clone, Copy, Debug, PartialEq, Eq, Structural)]
pub struct TLDouble(u64);

impl View for TLDouble {
    type V = u64;

    closed spec fn view(&self) -> u64 {
        self.0
    }
}

impl TLDouble {
    /// The number with the bit pattern `bits`.
    pub fn from_bits(bits: u64) -> (r: Self)
        ensures
            r@ == bits,
    {
        TLDouble(bits)
    }

    /// The number's bit pattern.
    pub fn to_bits(&self) -> (r: u64)
        ensures
            r == self@,
    {
        self.0
    }
}

impl TLType for TLDouble {
    type Model = u64;

    open spec fn model(&self) -> u64 {
        self@
    }

    open spec fn encoding(m: u64) -> MyResult<Seq<u8>> {
        <u64 as TLType>::encoding(m)
    }

    open spec fn decoding(bytes: Seq<u8>) -> MyResult<(u64, nat)> {
        <u64 as TLType>::decoding(bytes)
    }

    proof fn lemma_round_trip(m: u64, rest: Seq<u8>) {
        <u64 as TLType>::lemma_round_trip(m, rest);
    }

    proof fn lemma_decoding_in_bounds(bytes: Seq<u8>) {
        <u64 as TLType>::lemma_decoding_in_bounds(bytes);
    }

    fn tl_read(input: &mut ByteReader) -> (r: MyResult<TLDouble>) {
        match <u64 as TLType>::tl_read(input) {
            Ok(v) => Ok(TLDouble(v)),
            Err(e) => Err(e),
        }
    }

    fn tl_write(&self, output: &mut Vec<u8>) -> (r: MyResult<usize>) {
        self.0.tl_write(output)
    }
}

} // verus!
