//! `int`: a signed 32-bit integer, little-endian.

use crate::error::MyResult;
use crate::tl_types::TLType;
use crate::utils::endian::{
    lemma_le_bytes_len, lemma_le_round_trip, lemma_pow256_values, lemma_signed_unsigned, unsigned,
};
use crate::utils::read_bytes::{parse_i32, ByteReader, TlReadBytes};
use crate::utils::write_bytes::{wire_i32, TlWriteBytes};
use vstd::prelude::*;

verus! {

impl TLType for i32 {
    type Model = i32;

    open spec fn model(&self) -> i32 {
        *self
    }

    open spec fn encoding(m: i32) -> MyResult<Seq<u8>> {
        Ok(wire_i32(m))
    }

    open spec fn decoding(bytes: Seq<u8>) -> MyResult<(i32, nat)> {
        parse_i32(bytes)
    }

    proof fn lemma_round_trip(m: i32, rest: Seq<u8>) {
        lemma_pow256_values();
        lemma_signed_unsigned(m as int, 0, 4);
        lemma_le_round_trip(unsigned(m as int, 4), 4, rest);
    }

    proof fn lemma_decoding_in_bounds(bytes: Seq<u8>) {
    }

    fn tl_read(input: &mut ByteReader) -> (r: MyResult<i32>) {
        input.read_i32()
    }

    fn tl_write(&self, output: &mut Vec<u8>) -> (r: MyResult<usize>) {
        let _ = output.write_i32(*self);
        proof {
            lemma_le_bytes_len(unsigned(*self as int, 4), 4);
        }
        Ok(4)
    }
}

} // verus!
