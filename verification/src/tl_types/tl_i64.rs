//! `long`: a signed 64-bit integer, little-endian.

use crate::error::MyResult;
use crate::tl_types::TLType;
use crate::utils::endian::{
    lemma_le_bytes_len, lemma_le_round_trip, lemma_pow256_values, lemma_signed_unsigned, unsigned,
};
use crate::utils::read_bytes::{parse_i64, ByteReader, TlReadBytes};
use crate::utils::write_bytes::{wire_i64, TlWriteBytes};
use vstd::prelude::*;

verus! {

impl TLType for i64 {
    type Model = i64;

    open spec fn model(&self) -> i64 {
        *self
    }

    open spec fn encoding(m: i64) -> MyResult<Seq<u8>> {
        Ok(wire_i64(m))
    }

    open spec fn decoding(bytes: Seq<u8>) -> MyResult<(i64, nat)> {
        parse_i64(bytes)
    }

    proof fn lemma_round_trip(m: i64, rest: Seq<u8>) {
        lemma_pow256_values();
        lemma_signed_unsigned(m as int, 0, 8);
        lemma_le_round_trip(unsigned(m as int, 8), 8, rest);
    }

    proof fn lemma_decoding_in_bounds(bytes: Seq<u8>) {
    }

    fn tl_read(input: &mut ByteReader) -> (r: MyResult<i64>) {
        input.read_i64()
    }

    fn tl_write(&self, output: &mut Vec<u8>) -> (r: MyResult<usize>) {
        let _ = output.write_i64(*self);
        proof {
            lemma_le_bytes_len(unsigned(*self as int, 8), 8);
        }
        Ok(8)
    }
}

} // verus!
