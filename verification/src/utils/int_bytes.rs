//! Unsigned integers to and from byte arrays of their own size.

use crate::utils::endian::{
    be_bytes, be_read_u128, be_read_u32, be_read_u64, be_value, be_write_u128, be_write_u32,
    be_write_u64, le_bytes, le_read_u128, le_read_u32, le_read_u64, le_value, le_write_u128,
    le_write_u32, le_write_u64,
};
use vstd::prelude::*;

verus! {

/// An unsigned integer that converts to and from `Bytes`, an array of as
/// many bytes as the integer has.
pub trait IntFromIntoBytes<Bytes>: Sized {
    /// The integer as a number.
    spec fn value(self) -> nat;

    /// The bytes that an array holds.
    spec fn bytes_of(bytes: Bytes) -> Seq<u8>;

    /// The size of the integer in bytes.
    spec fn width() -> nat;

    fn into_le_bytes(self) -> (r: Bytes)
        ensures
            Self::bytes_of(r) == le_bytes(self.value(), Self::width()),
    ;

    fn into_be_bytes(self) -> (r: Bytes)
        ensures
            Self::bytes_of(r) == be_bytes(self.value(), Self::width()),
    ;

    fn from_le_bytes(bytes: Bytes) -> (r: Self)
        ensures
            r.value() == le_value(Self::bytes_of(bytes)),
    ;

    fn from_be_bytes(bytes: Bytes) -> (r: Self)
        ensures
            r.value() == be_value(Self::bytes_of(bytes)),
    ;
}

impl IntFromIntoBytes<[u8; 4]> for u32 {
    open spec fn value(self) -> nat {
        self as nat
    }

    open spec fn bytes_of(bytes: [u8; 4]) -> Seq<u8> {
        bytes@
    }

    open spec fn width() -> nat {
        4
    }

    fn into_le_bytes(self) -> (r: [u8; 4]) {
        le_write_u32(self)
    }

    fn into_be_bytes(self) -> (r: [u8; 4]) {
        be_write_u32(self)
    }

    fn from_le_bytes(bytes: [u8; 4]) -> (r: u32) {
        assert(bytes@.subrange(0, 4) =~= bytes@);
        le_read_u32(bytes.as_slice())
    }

    fn from_be_bytes(bytes: [u8; 4]) -> (r: u32) {
        assert(bytes@.subrange(0, 4) =~= bytes@);
        be_read_u32(bytes.as_slice())
    }
}

impl IntFromIntoBytes<[u8; 8]> for u64 {
    open spec fn value(self) -> nat {
        self as nat
    }

    open spec fn bytes_of(bytes: [u8; 8]) -> Seq<u8> {
        bytes@
    }

    open spec fn width() -> nat {
        8
    }

    fn into_le_bytes(self) -> (r: [u8; 8]) {
        le_write_u64(self)
    }

    fn into_be_bytes(self) -> (r: [u8; 8]) {
        be_write_u64(self)
    }

    fn from_le_bytes(bytes: [u8; 8]) -> (r: u64) {
        assert(bytes@.subrange(0, 8) =~= bytes@);
        le_read_u64(bytes.as_slice())
    }

    fn from_be_bytes(bytes: [u8; 8]) -> (r: u64) {
        assert(bytes@.subrange(0, 8) =~= bytes@);
        be_read_u64(bytes.as_slice())
    }
}

impl IntFromIntoBytes<[u8; 16]> for u128 {
    open spec fn value(self) -> nat {
        self as nat
    }

    open spec fn bytes_of(bytes: [u8; 16]) -> Seq<u8> {
        bytes@
    }

    open spec fn width() -> nat {
        16
    }

    fn into_le_bytes(self) -> (r: [u8; 16]) {
        le_write_u128(self)
    }

    fn into_be_bytes(self) -> (r: [u8; 16]) {
        be_write_u128(self)
    }

    fn from_le_bytes(bytes: [u8; 16]) -> (r: u128) {
        assert(bytes@.subrange(0, 16) =~= bytes@);
        le_read_u128(bytes.as_slice())
    }

    fn from_be_bytes(bytes: [u8; 16]) -> (r: u128) {
        assert(bytes@.subrange(0, 16) =~= bytes@);
        be_read_u128(bytes.as_slice())
    }
}

} // verus!
