//! `Bool`: one of two 32-bit sentinels.

use crate::error::{FormatError, MyResult, TlError};
use crate::tl_types::TLType;
use crate::utils::endian::{
    lemma_le_bytes_len, lemma_le_round_trip, lemma_pow256_values, lemma_signed_unsigned, unsigned,
};
use crate::utils::read_bytes::{parse_i32, ByteReader, TlReadBytes};
use crate::utils::write_bytes::{wire_i32, TlWriteBytes};
use vstd::prelude::*;

verus! {

/// The word that stands for `true`.
pub const BOOL_TRUE: i32 = -1_720_552_011;

/// The word that stands for `false`.
pub const BOOL_FALSE: i32 = -1_132_882_121;

/// The sentinel that stands for `b`.
pub open spec fn bool_sentinel(b: bool) -> i32 {
    if b {
        BOOL_TRUE
    } else {
        BOOL_FALSE
    }
}

impl TLType for bool {
    type Model = bool;

    open spec fn model(&self) -> bool {
        *self
    }

    open spec fn encoding(m: bool) -> MyResult<Seq<u8>> {
        Ok(wire_i32(bool_sentinel(m)))
    }

    open spec fn decoding(bytes: Seq<u8>) -> MyResult<(bool, nat)> {
        match parse_i32(bytes) {
            Ok((code, n)) => if code == BOOL_TRUE {
                Ok((true, n))
            } else if code == BOOL_FALSE {
                Ok((false, n))
            } else {
                Err(TlError::Format(FormatError::BoolSentinel(code)))
            },
            Err(e) => Err(e),
        }
    }

    proof fn lemma_round_trip(m: bool, rest: Seq<u8>) {
        let code = bool_sentinel(m);
        lemma_pow256_values();
        lemma_signed_unsigned(code as int, 0, 4);
        lemma_le_round_trip(unsigned(code as int, 4), 4, rest);
    }

    proof fn lemma_decoding_in_bounds(bytes: Seq<u8>) {
    }

    fn tl_read(input: &mut ByteReader) -> (r: MyResult<bool>) {
        let start = input.position();
        match input.read_i32() {
            Ok(code) => {
                if code == BOOL_TRUE {
                    Ok(true)
                } else if code == BOOL_FALSE {
                    Ok(false)
                } else {
                    input.set_position(start);
                    Err(TlError::Format(FormatError::BoolSentinel(code)))
                }
            },
            Err(e) => Err(e),
        }
    }

    fn tl_write(&self, output: &mut Vec<u8>) -> (r: MyResult<usize>) {
        let code = if *self {
            BOOL_TRUE
        } else {
            BOOL_FALSE
        };
        let _ = output.write_i32(code);
        proof {
            lemma_le_bytes_len(unsigned(code as int, 4), 4);
        }
        Ok(4)
    }
}

/// The two encodings of a boolean, byte by byte, and the fact that no other
/// four bytes decode as one.
pub proof fn lemma_bool_wire(bytes: Seq<u8>)
    ensures
        <bool as TLType>::encoding(true) == Ok::<Seq<u8>, TlError>(seq![0xb5u8, 0x75, 0x72, 0x99]),
        <bool as TLType>::encoding(false) == Ok::<Seq<u8>, TlError>(
            seq![0x37u8, 0x97, 0x79, 0xbc],
        ),
        <bool as TLType>::decoding(bytes) is Ok <==> bytes.len() >= 4 && (bytes.subrange(0, 4)
            == wire_i32(BOOL_TRUE) || bytes.subrange(0, 4) == wire_i32(BOOL_FALSE)),
{
    lemma_pow256_values();
    reveal_with_fuel(crate::utils::endian::le_bytes, 5);
    let t = wire_i32(BOOL_TRUE);
    let f = wire_i32(BOOL_FALSE);
    assert(unsigned(BOOL_TRUE as int, 4) == 0x997275b5);
    assert(unsigned(BOOL_FALSE as int, 4) == 0xbc799737);
    assert(t =~= seq![0xb5u8, 0x75, 0x72, 0x99]);
    assert(f =~= seq![0x37u8, 0x97, 0x79, 0xbc]);
    if bytes.len() >= 4 {
        let head = bytes.subrange(0, 4);
        let v = crate::utils::endian::le_value(head);
        crate::utils::endian::lemma_le_value_bound(head);
        crate::utils::endian::lemma_le_bytes_of_value(head);
        lemma_signed_unsigned(0, v, 4);
        lemma_signed_unsigned(BOOL_TRUE as int, 0, 4);
        lemma_signed_unsigned(BOOL_FALSE as int, 0, 4);
        crate::utils::endian::lemma_le_value_of_bytes(unsigned(BOOL_TRUE as int, 4), 4);
        crate::utils::endian::lemma_le_value_of_bytes(unsigned(BOOL_FALSE as int, 4), 4);
    }
}

} // verus!
