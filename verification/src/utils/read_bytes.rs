//! Reading the wire format's integers from a sequential byte source.

use crate::error::{FormatError, IoError, MyResult, TlError};
use crate::utils::endian::{
    le_read_u24, le_read_u32, le_read_u64, le_value, lemma_le_value_bound, lemma_pow256_values,
    signed, u32_to_i32, u64_to_i64,
};
use vstd::prelude::*;
use vstd::slice::slice_subrange;

verus! {

/// What is read from the front of `bytes` as `n` raw bytes: the bytes and
/// their number, or the end of the source.
pub open spec fn parse_raw(bytes: Seq<u8>, n: nat) -> MyResult<(Seq<u8>, nat)> {
    if bytes.len() < n {
        Err(TlError::eof())
    } else {
        Ok((bytes.subrange(0, n as int), n))
    }
}

/// What is read from the front of `bytes` as one byte.
pub open spec fn parse_u8(bytes: Seq<u8>) -> MyResult<(u8, nat)> {
    match parse_raw(bytes, 1) {
        Ok((b, n)) => Ok((b[0], n)),
        Err(e) => Err(e),
    }
}

/// What is read from the front of `bytes` as a little-endian number of three bytes.
pub open spec fn parse_u24(bytes: Seq<u8>) -> MyResult<(u32, nat)> {
    match parse_raw(bytes, 3) {
        Ok((b, n)) => Ok((le_value(b) as u32, n)),
        Err(e) => Err(e),
    }
}

/// What is read from the front of `bytes` as a little-endian `u32`.
pub open spec fn parse_u32(bytes: Seq<u8>) -> MyResult<(u32, nat)> {
    match parse_raw(bytes, 4) {
        Ok((b, n)) => Ok((le_value(b) as u32, n)),
        Err(e) => Err(e),
    }
}

/// What is read from the front of `bytes` as a little-endian `i32`.
pub open spec fn parse_i32(bytes: Seq<u8>) -> MyResult<(i32, nat)> {
    match parse_raw(bytes, 4) {
        Ok((b, n)) => Ok((signed(le_value(b), 4) as i32, n)),
        Err(e) => Err(e),
    }
}

/// What is read from the front of `bytes` as an `i32` that must not be negative.
pub open spec fn parse_u31(bytes: Seq<u8>) -> MyResult<(u32, nat)> {
    match parse_i32(bytes) {
        Ok((v, n)) => if v < 0 {
            Err(TlError::Format(FormatError::NegativeInt(v as i64)))
        } else {
            Ok((v as u32, n))
        },
        Err(e) => Err(e),
    }
}

/// What is read from the front of `bytes` as a little-endian `u64`.
pub open spec fn parse_u64(bytes: Seq<u8>) -> MyResult<(u64, nat)> {
    match parse_raw(bytes, 8) {
        Ok((b, n)) => Ok((le_value(b) as u64, n)),
        Err(e) => Err(e),
    }
}

/// What is read from the front of `bytes` as a little-endian `i64`.
pub open spec fn parse_i64(bytes: Seq<u8>) -> MyResult<(i64, nat)> {
    match parse_raw(bytes, 8) {
        Ok((b, n)) => Ok((signed(le_value(b), 8) as i64, n)),
        Err(e) => Err(e),
    }
}

/// What is read from the front of `bytes` as an `i64` that must not be negative.
pub open spec fn parse_u63(bytes: Seq<u8>) -> MyResult<(u64, nat)> {
    match parse_i64(bytes) {
        Ok((v, n)) => if v < 0 {
            Err(TlError::Format(FormatError::NegativeInt(v)))
        } else {
            Ok((v as u64, n))
        },
        Err(e) => Err(e),
    }
}

/// The state of a byte source: all its bytes, and how many have been read.
pub struct Cursor {
    pub source: Seq<u8>,
    pub offset: nat,
}

impl Cursor {
    /// The bytes that are still to be read.
    pub open spec fn remaining(self) -> Seq<u8> {
        self.source.skip(self.offset as int)
    }

    /// The state after `n` more bytes have been read.
    pub open spec fn advance(self, n: nat) -> Cursor {
        Cursor { source: self.source, offset: self.offset + n }
    }

    /// The cursor has not run past the end of its source.
    pub open spec fn in_bounds(self) -> bool {
        self.offset <= self.source.len()
    }
}

/// A read that follows `expected`: on success the cursor moved over what was
/// read and the value is handed out; on failure the cursor stays.
pub open spec fn read_outcome<T>(
    before: Cursor,
    after: Cursor,
    expected: MyResult<(T, nat)>,
    r: MyResult<T>,
) -> bool {
    &&& after.in_bounds()
    &&& match expected {
        Ok((v, n)) => r == Ok::<T, TlError>(v) && after == before.advance(n),
        Err(e) => r == Err::<T, TlError>(e) && after == before,
    }
}

/// A read of raw bytes that follows [`parse_raw`].
pub open spec fn raw_outcome<T: View<V = Seq<u8>>>(
    before: Cursor,
    after: Cursor,
    n: nat,
    r: MyResult<T>,
) -> bool {
    &&& after.in_bounds()
    &&& match parse_raw(before.remaining(), n) {
        Ok((b, k)) => r is Ok && r->Ok_0@ == b && after == before.advance(k),
        Err(e) => r == Err::<T, TlError>(e) && after == before,
    }
}

/// A sequential byte source that hands out the integers of the wire format.
///
/// All multi-byte integers are little-endian. A read that fails consumes
/// nothing.
pub trait TlReadBytes: Sized + View<V = Cursor> {
    fn read_u8(&mut self) -> (r: MyResult<u8>)
        ensures
            read_outcome(old(self)@, final(self)@, parse_u8(old(self)@.remaining()), r),
    ;

    fn read_u24(&mut self) -> (r: MyResult<u32>)
        ensures
            read_outcome(old(self)@, final(self)@, parse_u24(old(self)@.remaining()), r),
    ;

    fn read_i32(&mut self) -> (r: MyResult<i32>)
        ensures
            read_outcome(old(self)@, final(self)@, parse_i32(old(self)@.remaining()), r),
    ;

    fn read_u31(&mut self) -> (r: MyResult<u32>)
        ensures
            read_outcome(old(self)@, final(self)@, parse_u31(old(self)@.remaining()), r),
    ;

    fn read_u32(&mut self) -> (r: MyResult<u32>)
        ensures
            read_outcome(old(self)@, final(self)@, parse_u32(old(self)@.remaining()), r),
    ;

    fn read_i64(&mut self) -> (r: MyResult<i64>)
        ensures
            read_outcome(old(self)@, final(self)@, parse_i64(old(self)@.remaining()), r),
    ;

    fn read_u63(&mut self) -> (r: MyResult<u64>)
        ensures
            read_outcome(old(self)@, final(self)@, parse_u63(old(self)@.remaining()), r),
    ;

    fn read_u64(&mut self) -> (r: MyResult<u64>)
        ensures
            read_outcome(old(self)@, final(self)@, parse_u64(old(self)@.remaining()), r),
    ;

    fn read_8_bytes(&mut self) -> (r: MyResult<[u8; 8]>)
        ensures
            raw_outcome(old(self)@, final(self)@, 8, r),
    ;

    fn read_16_bytes(&mut self) -> (r: MyResult<[u8; 16]>)
        ensures
            raw_outcome(old(self)@, final(self)@, 16, r),
    ;
}

/// A cursor over a byte slice.
pub struct ByteReader<'a> {
    data: &'a [u8],
    pos: usize,
}

/// An array that holds the bytes of `chunk`.
fn array_of<const N: usize>(chunk: &[u8]) -> (r: [u8; N])
    requires
        chunk@.len() == N,
    ensures
        r@ == chunk@,
{
    let mut out = [0u8;N];
    let mut i: usize = 0;
    while i < N
        invariant
            i <= N,
            chunk@.len() == N,
            forall|j: int| 0 <= j < i ==> out@[j] == chunk@[j],
        decreases N - i,
    {
        out[i] = chunk[i];
        i += 1;
    }
    assert(out@ =~= chunk@);
    out
}

impl<'a> View for ByteReader<'a> {
    type V = Cursor;

    closed spec fn view(&self) -> Cursor {
        Cursor { source: self.data@, offset: self.pos as nat }
    }
}

impl<'a> ByteReader<'a> {
    #[verifier::type_invariant]
    spec fn in_bounds(self) -> bool {
        self.pos <= self.data@.len()
    }

    /// A cursor at the start of `data`.
    pub fn new(data: &'a [u8]) -> (r: Self)
        ensures
            r@ == (Cursor { source: data@, offset: 0 }),
    {
        ByteReader { data, pos: 0 }
    }

    /// How many bytes have been read.
    pub fn position(&self) -> (p: usize)
        ensures
            p == self@.offset,
            self@.in_bounds(),
    {
        proof {
            use_type_invariant(self);
        }
        self.pos
    }

    /// How many bytes are left to read.
    pub fn remaining_len(&self) -> (n: usize)
        ensures
            n == self@.remaining().len(),
            self@.in_bounds(),
    {
        proof {
            use_type_invariant(self);
        }
        self.data.len() - self.pos
    }

    /// Moves the cursor to `p` if the source has that many bytes, and says
    /// whether it did.
    pub fn set_position(&mut self, p: usize) -> (moved: bool)
        ensures
            moved == (p <= old(self)@.source.len()),
            final(self)@ == if moved {
                Cursor { source: old(self)@.source, offset: p as nat }
            } else {
                old(self)@
            },
            final(self)@.in_bounds(),
    {
        proof {
            use_type_invariant(&*self);
        }
        if p <= self.data.len() {
            self.pos = p;
            true
        } else {
            false
        }
    }

    /// The next `n` bytes, as a slice of the source.
    pub fn read_slice(&mut self, n: usize) -> (r: MyResult<&'a [u8]>)
        ensures
            raw_outcome(old(self)@, final(self)@, n as nat, r),
    {
        proof {
            use_type_invariant(&*self);
        }
        if self.data.len() - self.pos < n {
            return Err(TlError::Io(IoError::UnexpectedEof));
        }
        let chunk = slice_subrange(self.data, self.pos, self.pos + n);
        assert(chunk@ =~= self@.remaining().subrange(0, n as int));
        self.pos = self.pos + n;
        Ok(chunk)
    }

    /// The next `N` bytes, as an array.
    pub fn read_array<const N: usize>(&mut self) -> (r: MyResult<[u8; N]>)
        ensures
            raw_outcome(old(self)@, final(self)@, N as nat, r),
    {
        match self.read_slice(N) {
            Ok(chunk) => Ok(array_of::<N>(chunk)),
            Err(e) => Err(e),
        }
    }
}

impl<'a> TlReadBytes for ByteReader<'a> {
    fn read_u8(&mut self) -> (r: MyResult<u8>) {
        match self.read_slice(1) {
            Ok(chunk) => Ok(chunk[0]),
            Err(e) => Err(e),
        }
    }

    fn read_u24(&mut self) -> (r: MyResult<u32>) {
        match self.read_slice(3) {
            Ok(chunk) => {
                assert(chunk@.subrange(0, 3) =~= chunk@);
                Ok(le_read_u24(chunk))
            },
            Err(e) => Err(e),
        }
    }

    fn read_i32(&mut self) -> (r: MyResult<i32>) {
        match self.read_u32() {
            Ok(u) => {
                proof {
                    lemma_pow256_values();
                    lemma_le_value_bound(old(self)@.remaining().subrange(0, 4));
                }
                Ok(u32_to_i32(u))
            },
            Err(e) => Err(e),
        }
    }

    fn read_u31(&mut self) -> (r: MyResult<u32>) {
        let start = self.position();
        match self.read_i32() {
            Ok(v) => {
                if v < 0 {
                    self.set_position(start);
                    Err(TlError::Format(FormatError::NegativeInt(v as i64)))
                } else {
                    Ok(v as u32)
                }
            },
            Err(e) => Err(e),
        }
    }

    fn read_u32(&mut self) -> (r: MyResult<u32>) {
        match self.read_slice(4) {
            Ok(chunk) => {
                assert(chunk@.subrange(0, 4) =~= chunk@);
                proof {
                    lemma_pow256_values();
                    lemma_le_value_bound(chunk@);
                }
                Ok(le_read_u32(chunk))
            },
            Err(e) => Err(e),
        }
    }

    fn read_i64(&mut self) -> (r: MyResult<i64>) {
        match self.read_u64() {
            Ok(u) => {
                proof {
                    lemma_pow256_values();
                    lemma_le_value_bound(old(self)@.remaining().subrange(0, 8));
                }
                Ok(u64_to_i64(u))
            },
            Err(e) => Err(e),
        }
    }

    fn read_u63(&mut self) -> (r: MyResult<u64>) {
        let start = self.position();
        match self.read_i64() {
            Ok(v) => {
                if v < 0 {
                    self.set_position(start);
                    Err(TlError::Format(FormatError::NegativeInt(v)))
                } else {
                    Ok(v as u64)
                }
            },
            Err(e) => Err(e),
        }
    }

    fn read_u64(&mut self) -> (r: MyResult<u64>) {
        match self.read_slice(8) {
            Ok(chunk) => {
                assert(chunk@.subrange(0, 8) =~= chunk@);
                proof {
                    lemma_pow256_values();
                    lemma_le_value_bound(chunk@);
                }
                Ok(le_read_u64(chunk))
            },
            Err(e) => Err(e),
        }
    }

    fn read_8_bytes(&mut self) -> (r: MyResult<[u8; 8]>) {
        self.read_array::<8>()
    }

    fn read_16_bytes(&mut self) -> (r: MyResult<[u8; 16]>) {
        self.read_array::<16>()
    }
}

} // verus!
