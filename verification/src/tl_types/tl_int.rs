//! `int` behind a type of its own.

use crate::error::MyResult;
use crate::tl_types::TLType;
use crate::utils::endian::{i32_to_u32, unsigned};
use crate::utils::read_bytes::ByteReader;
use vstd::prelude::*;

verus! {

/// A 32-bit integer of the wire format.
#[derive(Clone, Copy, Debug, PartialEq, Eq, Structural)]
pub struct TLInt(i32);

impl View for TLInt {
    type V = i32;

    closed spec fn view(&self) -> i32 {
        self.0
    }
}

impl TLInt {
    pub fn new(value: i32) -> (r: Self)
        ensures
            r@ == value,
    {
        TLInt(value)
    }

    pub fn as_i32(&self) -> (r: i32)
        ensures
            r == self@,
    {
        self.0
    }

    /// The integer's 32-bit pattern read as unsigned: the integer itself
    /// where it is not negative.
    pub fn as_u31(&self) -> (r: u32)
        ensures
            r == unsigned(self@ as int, 4),
            self@ >= 0 ==> r == self@,
    {
        i32_to_u32(self.0)
    }
}

impl TLType for TLInt {
    type Model = i32;

    open spec fn model(&self) -> i32 {
        self@
    }

    open spec fn encoding(m: i32) -> MyResult<Seq<u8>> {
        <i32 as TLType>::encoding(m)
    }

    open spec fn decoding(bytes: Seq<u8>) -> MyResult<(i32, nat)> {
        <i32 as TLType>::decoding(bytes)
    }

    proof fn lemma_round_trip(m: i32, rest: Seq<u8>) {
        <i32 as TLType>::lemma_round_trip(m, rest);
    }

    proof fn lemma_decoding_in_bounds(bytes: Seq<u8>) {
        <i32 as TLType>::lemma_decoding_in_bounds(bytes);
    }

    fn tl_read(input: &mut ByteReader) -> (r: MyResult<TLInt>) {
        match <i32 as TLType>::tl_read(input) {
            Ok(v) => Ok(TLInt(v)),
            Err(e) => Err(e),
        }
    }

    fn tl_write(&self, output: &mut Vec<u8>) -> (r: MyResult<usize>) {
        self.0.tl_write(output)
    }
}

} // verus!
