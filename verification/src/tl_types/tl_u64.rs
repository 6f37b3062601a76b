//! An unsigned 64-bit integer, little-endian.

use crate::error::MyResult;
use crate::tl_types::TLType;
use crate::utils::endian::{
    lemma_le_bytes_len, lemma_le_round_trip, lemma_pow256_values,
};
use crate::utils::read_bytes::{parse_u64, ByteReader, TlReadBytes};
use crate::utils::write_bytes::{wire_u64, TlWriteBytes};
use vstd::prelude::*;

verus! {

impl TLType for u64 {
    type Model = u64;

    open spec fn model(&self) -> u64 {
        *self
    }

    open spec fn encoding(m: u64) -> MyResult<Seq<u8>> {
        Ok(wire_u64(m))
    }

    open spec fn decoding(bytes: Seq<u8>) -> MyResult<(u64, nat)> {
        parse_u64(bytes)
    }

    proof fn lemma_round_trip(m: u64, rest: Seq<u8>) {
        lemma_pow256_values();
        lemma_le_round_trip(m as nat, 8, rest);
    }

    proof fn lemma_decoding_in_bounds(bytes: Seq<u8>) {
    }

    fn tl_read(input: &mut ByteReader) -> (r: MyResult<u64>) {
        input.read_u64()
    }

    fn tl_write(&self, output: &mut Vec<u8>) -> (r: MyResult<usize>) {
        let _ = output.write_u64(*self);
        proof {
            lemma_le_bytes_len(*self as nat, 8);
        }
        Ok(8)
    }
}

} // verus!
