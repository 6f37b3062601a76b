//! `string`: a byte string that holds UTF-8.

use crate::error::{FormatError, MyResult, TlError};
use crate::tl_types::tl_bytes::{
    bytes_decoding, bytes_encoding, lemma_bytes_round_trip, read_payload, write_payload,
};
use crate::tl_types::TLType;
use crate::utils::read_bytes::ByteReader;
use vstd::prelude::*;
use vstd::slice::slice_to_vec;
use vstd::utf8::{
    decode_utf8, encode_utf8, encode_utf8_decode_utf8, encode_utf8_valid_utf8, valid_utf8,
};

verus! {

/// `String::from_utf8` of the standard library: the string that the bytes
/// spell in UTF-8, or nothing where they are not UTF-8.
#[verifier::external_body]
pub(crate) fn string_from_utf8(bytes: Vec<u8>) -> (r: Option<String>)
    ensures
        r is Some <==> valid_utf8(bytes@),
        r matches Some(s) ==> s@ == decode_utf8(bytes@),
{
    String::from_utf8(bytes).ok()
}

impl TLType for String {
    type Model = Seq<char>;

    open spec fn model(&self) -> Seq<char> {
        self@
    }

    open spec fn encoding(m: Seq<char>) -> MyResult<Seq<u8>> {
        bytes_encoding(encode_utf8(m))
    }

    open spec fn decoding(bytes: Seq<u8>) -> MyResult<(Seq<char>, nat)> {
        match bytes_decoding(bytes) {
            Ok((payload, n)) => if valid_utf8(payload) {
                Ok((decode_utf8(payload), n))
            } else {
                Err(TlError::Format(FormatError::InvalidUtf8))
            },
            Err(e) => Err(e),
        }
    }

    proof fn lemma_round_trip(m: Seq<char>, rest: Seq<u8>) {
        lemma_bytes_round_trip(encode_utf8(m), rest);
        encode_utf8_valid_utf8(m);
        encode_utf8_decode_utf8(m);
    }

    proof fn lemma_decoding_in_bounds(bytes: Seq<u8>) {
    }

    fn tl_read(input: &mut ByteReader) -> (r: MyResult<String>) {
        let start = input.position();
        match read_payload(input) {
            Ok(payload) => match string_from_utf8(slice_to_vec(payload)) {
                Some(s) => Ok(s),
                None => {
                    input.set_position(start);
                    Err(TlError::Format(FormatError::InvalidUtf8))
                },
            },
            Err(e) => Err(e),
        }
    }

    fn tl_write(&self, output: &mut Vec<u8>) -> (r: MyResult<usize>) {
        write_payload(self.as_str().as_bytes(), output)
    }
}

} // verus!
