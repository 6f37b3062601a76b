//! `int256`: thirty-two raw bytes.

use crate::error::{FormatError, MyResult, TlError};
use crate::tl_types::TLType;
use crate::utils::read_bytes::{parse_raw, ByteReader};
use crate::utils::write_bytes::append_bytes;
use vstd::prelude::*;

verus! {

impl TLType for [u8; 32] {
    type Model = Seq<u8>;

    open spec fn model(&self) -> Seq<u8> {
        self@
    }

    open spec fn encoding(m: Seq<u8>) -> MyResult<Seq<u8>> {
        if m.len() == 32 {
            Ok(m)
        } else {
            Err(TlError::Format(FormatError::LengthOutOfRange(m.len() as usize)))
        }
    }

    open spec fn decoding(bytes: Seq<u8>) -> MyResult<(Seq<u8>, nat)> {
        parse_raw(bytes, 32)
    }

    proof fn lemma_round_trip(m: Seq<u8>, rest: Seq<u8>) {
        if m.len() == 32 {
            assert((m + rest).subrange(0, 32) =~= m);
        }
    }

    proof fn lemma_decoding_in_bounds(bytes: Seq<u8>) {
    }

    fn tl_read(input: &mut ByteReader) -> (r: MyResult<[u8; 32]>) {
        input.read_array::<32>()
    }

    fn tl_write(&self, output: &mut Vec<u8>) -> (r: MyResult<usize>) {
        append_bytes(output, self.as_slice());
        Ok(32)
    }
}

} // verus!
