//! An unsigned 32-bit integer, little-endian.

use crate::error::MyResult;
use crate::tl_types::TLType;
use crate::utils::endian::{
    lemma_le_bytes_len, lemma_le_round_trip, lemma_pow256_values,
};
use crate::utils::read_bytes::{parse_u32, ByteReader, TlReadBytes};
use crate::utils::write_bytes::{wire_u32, TlWriteBytes};
use vstd::prelude::*;

verus! {

impl TLType for u32 {
    type Model = u32;

    open spec fn model(&self) -> u32 {
        *self
    }

    open spec fn encoding(m: u32) -> MyResult<Seq<u8>> {
        Ok(wire_u32(m))
    }

    open spec fn decoding(bytes: Seq<u8>) -> MyResult<(u32, nat)> {
        parse_u32(bytes)
    }

    proof fn lemma_round_trip(m: u32, rest: Seq<u8>) {
        lemma_pow256_values();
        lemma_le_round_trip(m as nat, 4, rest);
    }

    proof fn lemma_decoding_in_bounds(bytes: Seq<u8>) {
    }

    fn tl_read(input: &mut ByteReader) -> (r: MyResult<u32>) {
        input.read_u32()
    }

    fn tl_write(&self, output: &mut Vec<u8>) -> (r: MyResult<usize>) {
        let _ = output.write_u32(*self);
        proof {
            lemma_le_bytes_len(*self as nat, 4);
        }
        Ok(4)
    }
}

} // verus!
