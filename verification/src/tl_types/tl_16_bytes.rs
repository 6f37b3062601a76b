//! `int128`: sixteen raw bytes.

use crate::error::{FormatError, MyResult, TlError};
use crate::tl_types::TLType;
use crate::utils::read_bytes::{parse_raw, ByteReader};
use crate::utils::write_bytes::append_bytes;
use vstd::prelude::*;

verus! {

impl TLType for [u8; 16] {
    type Model = Seq<u8>;

    open spec fn model(&self) -> Seq<u8> {
        self@
    }

    open spec fn encoding(m: Seq<u8>) -> MyResult<Seq<u8>> {
        if m.len() == 16 {
            Ok(m)
        } else {
            Err(TlError::Format(FormatError::LengthOutOfRange(m.len() as usize)))
        }
    }

    open spec fn decoding(bytes: Seq<u8>) -> MyResult<(Seq<u8>, nat)> {
        parse_raw(bytes, 16)
    }

    proof fn lemma_round_trip(m: Seq<u8>, rest: Seq<u8>) {
        if m.len() == 16 {
            assert((m + rest).subrange(0, 16) =~= m);
        }
    }

    proof fn lemma_decoding_in_bounds(bytes: Seq<u8>) {
    }

    fn tl_read(input: &mut ByteReader) -> (r: MyResult<[u8; 16]>) {
        input.read_array::<16>()
    }

    fn tl_write(&self, output: &mut Vec<u8>) -> (r: MyResult<usize>) {
        append_bytes(output, self.as_slice());
        Ok(16)
    }
}

} // verus!
