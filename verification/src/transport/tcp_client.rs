//! The two framings of the TCP transport.
//!
//! The abridged framing announces a package by its length in units of four
//! bytes, in one byte or, from 127 units on, in the marker 127 and three
//! bytes. The intermediate framing announces it by its length in bytes, in
//! four bytes. Moving the bytes over a connection is left to the caller.

use crate::error::{FormatError, MyResult, TlError};
use crate::utils::endian::{
    le_bytes, lemma_le_round_trip, lemma_le_value_bound, lemma_pow256_values,
};
use crate::utils::read_bytes::{parse_u24, parse_u32, parse_u8, ByteReader, TlReadBytes};
use crate::utils::write_bytes::{append_bytes, wire_u32, TlWriteBytes};
use vstd::prelude::*;
use vstd::slice::slice_to_vec;

verus! {

/// The framing that a connection uses.
#[derive(Clone, Copy, Debug, PartialEq, Eq, Structural)]
pub enum TransporterVersion {
    Intermediate,
    Abridged,
}

/// The word that opens an intermediate connection.
pub const INTERMEDIATE_TAG: u32 = 0xeeee_eeee;

/// The byte that opens an abridged connection.
pub const ABRIDGED_TAG: u8 = 0xef;

/// The first count of units that the abridged framing cannot announce.
pub const MAX_UNITS: usize = 0x100_0000;

/// What a client sends first to choose the framing.
pub open spec fn handshake_bytes(version: TransporterVersion) -> Seq<u8> {
    match version {
        TransporterVersion::Intermediate => wire_u32(INTERMEDIATE_TAG),
        TransporterVersion::Abridged => seq![ABRIDGED_TAG],
    }
}

/// The announcement of `units` units of four bytes.
pub open spec fn abridged_header(units: nat) -> Seq<u8> {
    if units < 127 {
        seq![units as u8]
    } else {
        seq![127u8] + le_bytes(units, 3)
    }
}

/// The abridged frame of `payload`, which must be whole units and fewer
/// than the framing can count.
pub open spec fn abridged_frame(payload: Seq<u8>) -> MyResult<Seq<u8>> {
    if payload.len() % 4 == 0 && payload.len() / 4 < MAX_UNITS {
        Ok(abridged_header(payload.len() / 4) + payload)
    } else {
        Err(TlError::Format(FormatError::LengthOutOfRange(payload.len() as usize)))
    }
}

/// The intermediate frame of `payload`, whose length must fit in 32 bits.
pub open spec fn intermediate_frame(payload: Seq<u8>) -> MyResult<Seq<u8>> {
    if payload.len() <= u32::MAX {
        Ok(wire_u32(payload.len() as u32) + payload)
    } else {
        Err(TlError::Format(FormatError::LengthOutOfRange(payload.len() as usize)))
    }
}

/// The frame of `payload` in the given framing.
pub open spec fn frame(version: TransporterVersion, payload: Seq<u8>) -> MyResult<Seq<u8>> {
    match version {
        TransporterVersion::Intermediate => intermediate_frame(payload),
        TransporterVersion::Abridged => abridged_frame(payload),
    }
}

/// The units that the front of `bytes` announces, and the size of the
/// announcement.
pub open spec fn parse_abridged_header(bytes: Seq<u8>) -> MyResult<(nat, nat)> {
    match parse_u8(bytes) {
        Ok((first, _)) => if first < 127 {
            Ok((first as nat, 1))
        } else {
            match parse_u24(bytes.skip(1)) {
                Ok((units, _)) => Ok((units as nat, 4)),
                Err(e) => Err(e),
            }
        },
        Err(e) => Err(e),
    }
}

/// The payload of the abridged frame at the front of `bytes`, and the size
/// of the frame.
pub open spec fn parse_abridged(bytes: Seq<u8>) -> MyResult<(Seq<u8>, nat)> {
    match parse_abridged_header(bytes) {
        Ok((units, head)) => {
            let total = head + 4 * units;
            if bytes.len() < total {
                Err(TlError::eof())
            } else {
                Ok((bytes.subrange(head as int, total as int), total))
            }
        },
        Err(e) => Err(e),
    }
}

/// The payload of the intermediate frame at the front of `bytes`, and the
/// size of the frame.
pub open spec fn parse_intermediate(bytes: Seq<u8>) -> MyResult<(Seq<u8>, nat)> {
    match parse_u32(bytes) {
        Ok((len, _)) => {
            let total = (4 + len) as nat;
            if bytes.len() < total {
                Err(TlError::eof())
            } else {
                Ok((bytes.subrange(4, total as int), total))
            }
        },
        Err(e) => Err(e),
    }
}

/// The payload of the frame at the front of `bytes`, in the given framing.
pub open spec fn parse_frame(version: TransporterVersion, bytes: Seq<u8>) -> MyResult<
    (Seq<u8>, nat),
> {
    match version {
        TransporterVersion::Intermediate => parse_intermediate(bytes),
        TransporterVersion::Abridged => parse_abridged(bytes),
    }
}

/// What was framed is what is received, whatever follows the frame.
pub proof fn lemma_frame_round_trip(version: TransporterVersion, payload: Seq<u8>, rest: Seq<u8>)
    ensures
        frame(version, payload) matches Ok(f) ==> parse_frame(version, f + rest) == Ok::<
            (Seq<u8>, nat),
            TlError,
        >((payload, f.len())),
{
    lemma_pow256_values();
    if let Ok(f) = frame(version, payload) {
        let all = f + rest;
        match version {
            TransporterVersion::Intermediate => {
                lemma_le_round_trip(payload.len(), 4, payload + rest);
                assert(all =~= wire_u32(payload.len() as u32) + (payload + rest));
                assert(all.subrange(4, 4 + payload.len() as int) =~= payload);
            },
            TransporterVersion::Abridged => {
                let units = payload.len() / 4;
                assert(all.subrange(0, 1) =~= seq![all[0]]);
                if units >= 127 {
                    lemma_le_round_trip(units, 3, payload + rest);
                    assert(all.skip(1) =~= le_bytes(units, 3) + (payload + rest));
                    assert(all.subrange(4, 4 + payload.len() as int) =~= payload);
                } else {
                    assert(all.subrange(1, 1 + payload.len() as int) =~= payload);
                }
            },
        }
    }
}

/// Appends the abridged frame of `input` to the sink.
pub fn send_package_abridged(input: &[u8], output: &mut Vec<u8>) -> (r: MyResult<()>)
    ensures
        match abridged_frame(input@) {
            Ok(f) => r == Ok::<(), TlError>(()) && final(output)@ == old(output)@ + f,
            Err(e) => r == Err::<(), TlError>(e) && final(output)@ == old(output)@,
        },
{
    let len = input.len();
    if len % 4 != 0 || len / 4 >= MAX_UNITS {
        return Err(TlError::Format(FormatError::LengthOutOfRange(len)));
    }
    let size = (len / 4) as u32;
    if size < 127 {
        let _ = output.write_u8(size as u8);
    } else {
        let _ = output.write_u8(127);
        let _ = output.write_u24(size);
    }
    assert(output@ =~= old(output)@ + abridged_header((len / 4) as nat));
    append_bytes(output, input);
    assert(output@ =~= old(output)@ + (abridged_header((len / 4) as nat) + input@));
    Ok(())
}

/// Appends the intermediate frame of `input` to the sink.
pub fn send_package_intermediate(input: &[u8], output: &mut Vec<u8>) -> (r: MyResult<()>)
    ensures
        match intermediate_frame(input@) {
            Ok(f) => r == Ok::<(), TlError>(()) && final(output)@ == old(output)@ + f,
            Err(e) => r == Err::<(), TlError>(e) && final(output)@ == old(output)@,
        },
{
    let len = input.len();
    if len > 0xffff_ffff {
        return Err(TlError::Format(FormatError::LengthOutOfRange(len)));
    }
    let _ = output.write_u32(len as u32);
    append_bytes(output, input);
    assert(output@ =~= old(output)@ + (wire_u32(len as u32) + input@));
    Ok(())
}

/// Takes one abridged frame from the source and hands out its payload.
pub fn recv_package_abridged(input: &mut ByteReader) -> (r: MyResult<Vec<u8>>)
    ensures
        final(input)@.in_bounds(),
        match parse_abridged(old(input)@.remaining()) {
            Ok((p, n)) => r is Ok && r->Ok_0@ == p && final(input)@ == old(input)@.advance(n),
            Err(e) => r is Err && r->Err_0 == e && final(input)@ == old(input)@,
        },
{
    let ghost bytes = input@.remaining();
    let start = input.position();
    let first = match input.read_u8() {
        Ok(b) => b,
        Err(e) => {
            return Err(e);
        },
    };
    assert(bytes.subrange(0, 1)[0] == bytes[0]);
    let units: usize;
    let head: usize;
    if first < 127 {
        units = first as usize;
        head = 1;
    } else {
        assert(input@.remaining() =~= bytes.skip(1));
        match input.read_u24() {
            Ok(u) => {
                proof {
                    lemma_pow256_values();
                    lemma_le_value_bound(bytes.skip(1).subrange(0, 3));
                }
                units = u as usize;
                head = 4;
            },
            Err(e) => {
                input.set_position(start);
                return Err(e);
            },
        }
    }
    assert(input@.remaining() =~= bytes.skip(head as int));
    match input.read_slice(units * 4) {
        Ok(payload) => {
            assert(payload@ =~= bytes.subrange(head as int, head + 4 * units));
            Ok(slice_to_vec(payload))
        },
        Err(e) => {
            input.set_position(start);
            Err(e)
        },
    }
}

/// Takes one intermediate frame from the source and hands out its payload.
pub fn recv_package_intermediate(input: &mut ByteReader) -> (r: MyResult<Vec<u8>>)
    ensures
        final(input)@.in_bounds(),
        match parse_intermediate(old(input)@.remaining()) {
            Ok((p, n)) => r is Ok && r->Ok_0@ == p && final(input)@ == old(input)@.advance(n),
            Err(e) => r is Err && r->Err_0 == e && final(input)@ == old(input)@,
        },
{
    let ghost bytes = input@.remaining();
    let start = input.position();
    let len = match input.read_u32() {
        Ok(l) => l,
        Err(e) => {
            return Err(e);
        },
    };
    assert(input@.remaining() =~= bytes.skip(4));
    match input.read_slice(len as usize) {
        Ok(payload) => {
            assert(payload@ =~= bytes.subrange(4, 4 + len));
            Ok(slice_to_vec(payload))
        },
        Err(e) => {
            input.set_position(start);
            Err(e)
        },
    }
}

impl TransporterVersion {
    /// The bytes that a client sends first to choose the framing.
    pub fn handshake(&self) -> (r: Vec<u8>)
        ensures
            r@ == handshake_bytes(*self),
    {
        let mut out: Vec<u8> = Vec::new();
        match self {
            TransporterVersion::Intermediate => {
                let _ = out.write_u32(INTERMEDIATE_TAG);
                assert(out@ =~= wire_u32(INTERMEDIATE_TAG));
            },
            TransporterVersion::Abridged => {
                let _ = out.write_u8(ABRIDGED_TAG);
                assert(out@ =~= seq![ABRIDGED_TAG]);
            },
        }
        out
    }

    /// Appends the frame of `input` to the sink. A payload that the framing
    /// cannot announce is refused, and the sink stays as it was.
    pub fn send_package(&self, input: &[u8], output: &mut Vec<u8>) -> (r: MyResult<()>)
        ensures
            match frame(*self, input@) {
                Ok(f) => r == Ok::<(), TlError>(()) && final(output)@ == old(output)@ + f,
                Err(e) => r == Err::<(), TlError>(e) && final(output)@ == old(output)@,
            },
    {
        match self {
            TransporterVersion::Intermediate => send_package_intermediate(input, output),
            TransporterVersion::Abridged => send_package_abridged(input, output),
        }
    }

    /// Takes one frame from the source and hands out its payload. A frame
    /// that is not all there yet leaves the source where it was.
    pub fn recv_package(&self, input: &mut ByteReader) -> (r: MyResult<Vec<u8>>)
        ensures
            final(input)@.in_bounds(),
            match parse_frame(*self, old(input)@.remaining()) {
                Ok((p, n)) => r is Ok && r->Ok_0@ == p && final(input)@ == old(input)@.advance(n),
                Err(e) => r is Err && r->Err_0 == e && final(input)@ == old(input)@,
            },
    {
        match self {
            TransporterVersion::Intermediate => recv_package_intermediate(input),
            TransporterVersion::Abridged => recv_package_abridged(input),
        }
    }
}

} // verus!
