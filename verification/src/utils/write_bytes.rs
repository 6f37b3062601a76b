//! Writing the wire format's integers to a growing byte sink.

use crate::error::{FormatError, MyResult, TlError};
use crate::utils::endian::{
    i32_to_u32, i64_to_u64, le_bytes, le_write_u24, le_write_u32, le_write_u64, unsigned,
};
use vstd::prelude::*;

verus! {

/// What `write_u24` appends for `n`, or why it refuses.
pub open spec fn wire_u24(n: u32) -> MyResult<Seq<u8>> {
    if n < 0x100_0000 {
        Ok(le_bytes(n as nat, 3))
    } else {
        Err(TlError::Format(FormatError::LengthOutOfRange(n as usize)))
    }
}

/// The four bytes of a `u32` on the wire.
pub open spec fn wire_u32(n: u32) -> Seq<u8> {
    le_bytes(n as nat, 4)
}

/// The four bytes of an `i32` on the wire.
pub open spec fn wire_i32(n: i32) -> Seq<u8> {
    le_bytes(unsigned(n as int, 4), 4)
}

/// The eight bytes of a `u64` on the wire.
pub open spec fn wire_u64(n: u64) -> Seq<u8> {
    le_bytes(n as nat, 8)
}

/// The eight bytes of an `i64` on the wire.
pub open spec fn wire_i64(n: i64) -> Seq<u8> {
    le_bytes(unsigned(n as int, 8), 8)
}

/// A write that follows `expected`: on success exactly those bytes were
/// appended; on failure the sink is as it was.
pub open spec fn write_outcome(
    before: Seq<u8>,
    after: Seq<u8>,
    expected: MyResult<Seq<u8>>,
    r: MyResult<()>,
) -> bool {
    match expected {
        Ok(bytes) => r == Ok::<(), TlError>(()) && after == before + bytes,
        Err(e) => r == Err::<(), TlError>(e) && after == before,
    }
}

/// A byte sink that takes the integers of the wire format.
///
/// All multi-byte integers are written little-endian.
pub trait TlWriteBytes: Sized + View<V = Seq<u8>> {
    fn write_u8(&mut self, n: u8) -> (r: MyResult<()>)
        ensures
            write_outcome(old(self)@, final(self)@, Ok(seq![n]), r),
    ;

    fn write_u24(&mut self, n: u32) -> (r: MyResult<()>)
        ensures
            write_outcome(old(self)@, final(self)@, wire_u24(n), r),
    ;

    fn write_i32(&mut self, n: i32) -> (r: MyResult<()>)
        ensures
            write_outcome(old(self)@, final(self)@, Ok(wire_i32(n)), r),
    ;

    fn write_u32(&mut self, n: u32) -> (r: MyResult<()>)
        ensures
            write_outcome(old(self)@, final(self)@, Ok(wire_u32(n)), r),
    ;

    fn write_i64(&mut self, n: i64) -> (r: MyResult<()>)
        ensures
            write_outcome(old(self)@, final(self)@, Ok(wire_i64(n)), r),
    ;

    fn write_u64(&mut self, n: u64) -> (r: MyResult<()>)
        ensures
            write_outcome(old(self)@, final(self)@, Ok(wire_u64(n)), r),
    ;

    fn write_bytes(&mut self, bytes: &[u8]) -> (r: MyResult<()>)
        ensures
            write_outcome(old(self)@, final(self)@, Ok(bytes@), r),
    ;
}

/// Appends `bytes` to `sink`.
pub fn append_bytes(sink: &mut Vec<u8>, bytes: &[u8])
    ensures
        final(sink)@ == old(sink)@ + bytes@,
{
    let mut i: usize = 0;
    while i < bytes.len()
        invariant
            i <= bytes@.len(),
            sink@ == old(sink)@ + bytes@.subrange(0, i as int),
        decreases bytes@.len() - i,
    {
        sink.push(bytes[i]);
        i += 1;
        assert(sink@ =~= old(sink)@ + bytes@.subrange(0, i as int));
    }
    assert(bytes@.subrange(0, i as int) =~= bytes@);
}

impl TlWriteBytes for Vec<u8> {
    fn write_u8(&mut self, n: u8) -> (r: MyResult<()>) {
        self.push(n);
        assert(self@ =~= old(self)@ + seq![n]);
        Ok(())
    }

    fn write_u24(&mut self, n: u32) -> (r: MyResult<()>) {
        if n >= 0x100_0000 {
            return Err(TlError::Format(FormatError::LengthOutOfRange(n as usize)));
        }
        let bytes = le_write_u24(n);
        append_bytes(self, bytes.as_slice());
        Ok(())
    }

    fn write_i32(&mut self, n: i32) -> (r: MyResult<()>) {
        let bytes = le_write_u32(i32_to_u32(n));
        append_bytes(self, bytes.as_slice());
        Ok(())
    }

    fn write_u32(&mut self, n: u32) -> (r: MyResult<()>) {
        let bytes = le_write_u32(n);
        append_bytes(self, bytes.as_slice());
        Ok(())
    }

    fn write_i64(&mut self, n: i64) -> (r: MyResult<()>) {
        let bytes = le_write_u64(i64_to_u64(n));
        append_bytes(self, bytes.as_slice());
        Ok(())
    }

    fn write_u64(&mut self, n: u64) -> (r: MyResult<()>) {
        let bytes = le_write_u64(n);
        append_bytes(self, bytes.as_slice());
        Ok(())
    }

    fn write_bytes(&mut self, bytes: &[u8]) -> (r: MyResult<()>) {
        append_bytes(self, bytes);
        Ok(())
    }
}

} // verus!
