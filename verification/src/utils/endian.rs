//! Integers as byte strings, in both byte orders.
//!
//! The mathematics lives in [`le_value`] and [`le_bytes`]; the conversions
//! themselves are done by the `byteorder` crate.

use byteorder::{BigEndian, ByteOrder, LittleEndian};
use vstd::prelude::*;

verus! {

/// `256` to the power `n`: the number of values that `n` bytes can hold.
pub open spec fn pow256(n: nat) -> nat
    decreases n,
{
    if n == 0 {
        1
    } else {
        256 * pow256((n - 1) as nat)
    }
}

/// The number that `bytes` spell, least significant byte first.
pub open spec fn le_value(bytes: Seq<u8>) -> nat
    decreases bytes.len(),
{
    if bytes.len() == 0 {
        0
    } else {
        bytes[0] as nat + 256 * le_value(bytes.skip(1))
    }
}

/// The `width` low bytes of `v`, least significant byte first.
pub open spec fn le_bytes(v: nat, width: nat) -> Seq<u8>
    decreases width,
{
    if width == 0 {
        Seq::empty()
    } else {
        seq![(v % 256) as u8] + le_bytes(v / 256, (width - 1) as nat)
    }
}

/// The number that `bytes` spell, most significant byte first.
pub open spec fn be_value(bytes: Seq<u8>) -> nat {
    le_value(bytes.reverse())
}

/// The `width` low bytes of `v`, most significant byte first.
pub open spec fn be_bytes(v: nat, width: nat) -> Seq<u8> {
    le_bytes(v, width).reverse()
}

/// The integer that the `width`-byte pattern `v` stands for in two's complement.
pub open spec fn signed(v: nat, width: nat) -> int {
    if 2 * v < pow256(width) {
        v as int
    } else {
        v - pow256(width)
    }
}

/// The `width`-byte two's complement pattern of `v`.
pub open spec fn unsigned(v: int, width: nat) -> nat {
    if v >= 0 {
        v as nat
    } else {
        (v + pow256(width)) as nat
    }
}

/// The powers of 256 at the widths that the wire format uses.
pub proof fn lemma_pow256_values()
    ensures
        pow256(0) == 1,
        pow256(1) == 0x100,
        pow256(3) == 0x100_0000,
        pow256(4) == 0x1_0000_0000,
        pow256(8) == 0x1_0000_0000_0000_0000,
        pow256(16) == 0x1_0000_0000_0000_0000_0000_0000_0000_0000,
{
    reveal_with_fuel(pow256, 5);
    assert(pow256(4) == 0x1_0000_0000);
    assert(pow256(8) == 0x1_0000_0000 * pow256(4));
    assert(pow256(12) == 0x1_0000_0000 * pow256(8));
    assert(pow256(16) == 0x1_0000_0000 * pow256(12));
}

/// `le_bytes` yields exactly `width` bytes.
pub proof fn lemma_le_bytes_len(v: nat, width: nat)
    ensures
        le_bytes(v, width).len() == width,
    decreases width,
{
    if width > 0 {
        lemma_le_bytes_len(v / 256, (width - 1) as nat);
    }
}

/// A byte string spells a number below `256` to the power of its length.
pub proof fn lemma_le_value_bound(bytes: Seq<u8>)
    ensures
        le_value(bytes) < pow256(bytes.len()),
    decreases bytes.len(),
{
    if bytes.len() > 0 {
        lemma_le_value_bound(bytes.skip(1));
    }
}

/// Reading back the bytes of a number that fits gives the number.
pub proof fn lemma_le_value_of_bytes(v: nat, width: nat)
    requires
        v < pow256(width),
    ensures
        le_value(le_bytes(v, width)) == v,
    decreases width,
{
    if width > 0 {
        let rest = le_bytes(v / 256, (width - 1) as nat);
        let all = le_bytes(v, width);
        lemma_le_value_of_bytes(v / 256, (width - 1) as nat);
        assert(all.skip(1) =~= rest);
        assert(all[0] == (v % 256) as u8);
    }
}

/// Writing out the number that a byte string spells gives the byte string.
pub proof fn lemma_le_bytes_of_value(bytes: Seq<u8>)
    ensures
        le_bytes(le_value(bytes), bytes.len()) == bytes,
    decreases bytes.len(),
{
    if bytes.len() > 0 {
        let tail = bytes.skip(1);
        lemma_le_bytes_of_value(tail);
        let v = le_value(bytes);
        assert(v % 256 == bytes[0] as nat && v / 256 == le_value(tail)) by {
            assert(v == bytes[0] as nat + 256 * le_value(tail));
        }
        assert(le_bytes(v, bytes.len()) =~= bytes);
    }
}

/// The bytes of a number that fits are read back from the front of any
/// byte string that starts with them.
pub proof fn lemma_le_round_trip(v: nat, width: nat, rest: Seq<u8>)
    requires
        v < pow256(width),
    ensures
        le_bytes(v, width).len() == width,
        (le_bytes(v, width) + rest).subrange(0, width as int) == le_bytes(v, width),
        (le_bytes(v, width) + rest).skip(width as int) == rest,
        le_value((le_bytes(v, width) + rest).subrange(0, width as int)) == v,
{
    lemma_le_bytes_len(v, width);
    lemma_le_value_of_bytes(v, width);
    assert((le_bytes(v, width) + rest).subrange(0, width as int) =~= le_bytes(v, width));
    assert((le_bytes(v, width) + rest).skip(width as int) =~= rest);
}

/// The big-endian counterparts of the three laws above.
pub proof fn lemma_be_laws(v: nat, width: nat, bytes: Seq<u8>)
    ensures
        be_bytes(v, width).len() == width,
        be_value(bytes) < pow256(bytes.len()),
        v < pow256(width) ==> be_value(be_bytes(v, width)) == v,
        be_bytes(be_value(bytes), bytes.len()) == bytes,
{
    lemma_le_bytes_len(v, width);
    lemma_le_value_bound(bytes.reverse());
    if v < pow256(width) {
        lemma_le_value_of_bytes(v, width);
        assert(le_bytes(v, width).reverse().reverse() =~= le_bytes(v, width));
    }
    lemma_le_bytes_of_value(bytes.reverse());
    assert(bytes.reverse().reverse() =~= bytes);
}

/// Two's complement is a bijection between patterns and integers of one width.
pub proof fn lemma_signed_unsigned(v: int, p: nat, width: nat)
    requires
        width > 0,
    ensures
        -(pow256(width) as int) <= 2 * v < pow256(width) ==> unsigned(v, width) < pow256(width)
            && signed(unsigned(v, width), width) == v,
        p < pow256(width) ==> -(pow256(width) as int) <= 2 * signed(p, width) < pow256(width)
            && unsigned(signed(p, width), width) == p,
{
    assert(pow256(width) == 256 * pow256((width - 1) as nat));
}

/// `byteorder::LittleEndian::read_u24`: the first three bytes of the slice,
/// taken as a little-endian number. It panics on a shorter slice.
#[verifier::external_body]
pub(crate) fn le_read_u24(buf: &[u8]) -> (r: u32)
    requires
        buf@.len() >= 3,
    ensures
        r as nat == le_value(buf@.subrange(0, 3)),
{
    LittleEndian::read_u24(buf)
}

/// `byteorder::LittleEndian::read_u32`: the first four bytes of the slice,
/// taken as a little-endian number. It panics on a shorter slice.
#[verifier::external_body]
pub(crate) fn le_read_u32(buf: &[u8]) -> (r: u32)
    requires
        buf@.len() >= 4,
    ensures
        r as nat == le_value(buf@.subrange(0, 4)),
{
    LittleEndian::read_u32(buf)
}

/// `byteorder::LittleEndian::read_u64`: the first eight bytes of the slice,
/// taken as a little-endian number. It panics on a shorter slice.
#[verifier::external_body]
pub(crate) fn le_read_u64(buf: &[u8]) -> (r: u64)
    requires
        buf@.len() >= 8,
    ensures
        r as nat == le_value(buf@.subrange(0, 8)),
{
    LittleEndian::read_u64(buf)
}

/// `byteorder::LittleEndian::read_u128`: the first sixteen bytes of the slice,
/// taken as a little-endian number. It panics on a shorter slice.
#[verifier::external_body]
pub(crate) fn le_read_u128(buf: &[u8]) -> (r: u128)
    requires
        buf@.len() >= 16,
    ensures
        r as nat == le_value(buf@.subrange(0, 16)),
{
    LittleEndian::read_u128(buf)
}

/// `byteorder::BigEndian::read_u32`: the first four bytes of the slice, taken
/// as a big-endian number. It panics on a shorter slice.
#[verifier::external_body]
pub(crate) fn be_read_u32(buf: &[u8]) -> (r: u32)
    requires
        buf@.len() >= 4,
    ensures
        r as nat == be_value(buf@.subrange(0, 4)),
{
    BigEndian::read_u32(buf)
}

/// `byteorder::BigEndian::read_u64`: the first eight bytes of the slice, taken
/// as a big-endian number. It panics on a shorter slice.
#[verifier::external_body]
pub(crate) fn be_read_u64(buf: &[u8]) -> (r: u64)
    requires
        buf@.len() >= 8,
    ensures
        r as nat == be_value(buf@.subrange(0, 8)),
{
    BigEndian::read_u64(buf)
}

/// `byteorder::BigEndian::read_u128`: the first sixteen bytes of the slice,
/// taken as a big-endian number. It panics on a shorter slice.
#[verifier::external_body]
pub(crate) fn be_read_u128(buf: &[u8]) -> (r: u128)
    requires
        buf@.len() >= 16,
    ensures
        r as nat == be_value(buf@.subrange(0, 16)),
{
    BigEndian::read_u128(buf)
}

/// `byteorder::LittleEndian::write_u24`: the three low bytes of `n`, least
/// significant first. It panics when `n` does not fit in three bytes.
#[verifier::external_body]
pub(crate) fn le_write_u24(n: u32) -> (r: [u8; 3])
    requires
        n < 0x100_0000,
    ensures
        r@ == le_bytes(n as nat, 3),
{
    let mut buf = [0u8; 3];
    LittleEndian::write_u24(&mut buf, n);
    buf
}

/// `byteorder::LittleEndian::write_u32`: the four bytes of `n`, least
/// significant first.
#[verifier::external_body]
pub(crate) fn le_write_u32(n: u32) -> (r: [u8; 4])
    ensures
        r@ == le_bytes(n as nat, 4),
{
    let mut buf = [0u8; 4];
    LittleEndian::write_u32(&mut buf, n);
    buf
}

/// `byteorder::LittleEndian::write_u64`: the eight bytes of `n`, least
/// significant first.
#[verifier::external_body]
pub(crate) fn le_write_u64(n: u64) -> (r: [u8; 8])
    ensures
        r@ == le_bytes(n as nat, 8),
{
    let mut buf = [0u8; 8];
    LittleEndian::write_u64(&mut buf, n);
    buf
}

/// `byteorder::LittleEndian::write_u128`: the sixteen bytes of `n`, least
/// significant first.
#[verifier::external_body]
pub(crate) fn le_write_u128(n: u128) -> (r: [u8; 16])
    ensures
        r@ == le_bytes(n as nat, 16),
{
    let mut buf = [0u8; 16];
    LittleEndian::write_u128(&mut buf, n);
    buf
}

/// `byteorder::BigEndian::write_u32`: the four bytes of `n`, most significant
/// first.
#[verifier::external_body]
pub(crate) fn be_write_u32(n: u32) -> (r: [u8; 4])
    ensures
        r@ == be_bytes(n as nat, 4),
{
    let mut buf = [0u8; 4];
    BigEndian::write_u32(&mut buf, n);
    buf
}

/// `byteorder::BigEndian::write_u64`: the eight bytes of `n`, most
/// significant first.
#[verifier::external_body]
pub(crate) fn be_write_u64(n: u64) -> (r: [u8; 8])
    ensures
        r@ == be_bytes(n as nat, 8),
{
    let mut buf = [0u8; 8];
    BigEndian::write_u64(&mut buf, n);
    buf
}

/// `byteorder::BigEndian::write_u128`: the sixteen bytes of `n`, most
/// significant first.
#[verifier::external_body]
pub(crate) fn be_write_u128(n: u128) -> (r: [u8; 16])
    ensures
        r@ == be_bytes(n as nat, 16),
{
    let mut buf = [0u8; 16];
    BigEndian::write_u128(&mut buf, n);
    buf
}

/// The signed reading of an unsigned 32-bit pattern.
pub fn u32_to_i32(u: u32) -> (r: i32)
    ensures
        r == signed(u as nat, 4),
{
    proof {
        lemma_pow256_values();
    }
    let r = u as i32;
    assert(r == (if u < 0x8000_0000u32 {
        u as int
    } else {
        u as int - 0x1_0000_0000
    })) by (bit_vector)
        requires
            r == u as i32,
    ;
    r
}

/// The unsigned pattern of a signed 32-bit integer.
pub fn i32_to_u32(v: i32) -> (r: u32)
    ensures
        r == unsigned(v as int, 4),
{
    proof {
        lemma_pow256_values();
    }
    let r = v as u32;
    assert(r == (if v >= 0i32 {
        v as int
    } else {
        v as int + 0x1_0000_0000
    })) by (bit_vector)
        requires
            r == v as u32,
    ;
    r
}

/// The signed reading of an unsigned 64-bit pattern.
pub fn u64_to_i64(u: u64) -> (r: i64)
    ensures
        r == signed(u as nat, 8),
{
    proof {
        lemma_pow256_values();
    }
    let r = u as i64;
    assert(r == (if u < 0x8000_0000_0000_0000u64 {
        u as int
    } else {
        u as int - 0x1_0000_0000_0000_0000
    })) by (bit_vector)
        requires
            r == u as i64,
    ;
    r
}

/// The unsigned pattern of a signed 64-bit integer.
pub fn i64_to_u64(v: i64) -> (r: u64)
    ensures
        r == unsigned(v as int, 8),
{
    proof {
        lemma_pow256_values();
    }
    let r = v as u64;
    assert(r == (if v >= 0i64 {
        v as int
    } else {
        v as int + 0x1_0000_0000_0000_0000
    })) by (bit_vector)
        requires
            r == v as u64,
    ;
    r
}

} // verus!
