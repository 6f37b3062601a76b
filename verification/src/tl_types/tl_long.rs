//! `long` behind a type of its own.

use crate::error::MyResult;
use crate::tl_types::TLType;
use crate::utils::endian::{i64_to_u64, unsigned};
use crate::utils::read_bytes::ByteReader;
use vstd::prelude::*;

verus! {

/// A 64-bit integer of the wire format.
#[derive(Clone, Copy, Debug, PartialEq, Eq, Structural)]
pub struct TLLong(i64);

impl View for TLLong {
    type V = i64;

    closed spec fn view(&self) -> i64 {
        self.0
    }
}

impl TLLong {
    pub fn new(value: i64) -> (r: Self)
        ensures
            r@ == value,
    {
        TLLong(value)
    }

    pub fn as_i64(&self) -> (r: i64)
        ensures
            r == self@,
    {
        self.0
    }

    /// The integer's 64-bit pattern read as unsigned: the integer itself
    /// where it is not negative.
    pub fn as_u63(&self) -> (r: u64)
        ensures
            r == unsigned(self@ as int, 8),
            self@ >= 0 ==> r == self@,
    {
        i64_to_u64(self.0)
    }
}

impl TLType for TLLong {
    type Model = i64;

    open spec fn model(&self) -> i64 {
        self@
    }

    open spec fn encoding(m: i64) -> MyResult<Seq<u8>> {
        <i64 as TLType>::encoding(m)
    }

    open spec fn decoding(bytes: Seq<u8>) -> MyResult<(i64, nat)> {
        <i64 as TLType>::decoding(bytes)
    }

    proof fn lemma_round_trip(m: i64, rest: Seq<u8>) {
        <i64 as TLType>::lemma_round_trip(m, rest);
    }

    proof fn lemma_decoding_in_bounds(bytes: Seq<u8>) {
        <i64 as TLType>::lemma_decoding_in_bounds(bytes);
    }

    fn tl_read(input: &mut ByteReader) -> (r: MyResult<TLLong>) {
        match <i64 as TLType>::tl_read(input) {
            Ok(v) => Ok(TLLong(v)),
            Err(e) => Err(e),
        }
    }

    fn tl_write(&self, output: &mut Vec<u8>) -> (r: MyResult<usize>) {
        self.0.tl_write(output)
    }
}

} // verus!
