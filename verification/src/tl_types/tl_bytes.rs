//! `bytes`: a length-prefixed byte string, padded with zeros to a multiple
//! of four bytes.

use crate::error::{FormatError, MyResult, TlError};
use crate::tl_types::TLType;
use crate::utils::endian::{
    le_bytes, lemma_le_bytes_len, lemma_le_round_trip, lemma_le_value_bound, lemma_pow256_values,
};
use crate::utils::read_bytes::{parse_u24, parse_u8, ByteReader, TlReadBytes};
use crate::utils::write_bytes::{append_bytes, TlWriteBytes};
use vstd::prelude::*;
use vstd::slice::slice_to_vec;

verus! {

/// The first length that no encoding can express.
pub const MAX_BYTES_LEN: usize = 0x100_0000;

/// How many zero bytes bring `n` bytes up to a multiple of four.
pub open spec fn padding(n: nat) -> nat {
    ((4 - n % 4) % 4) as nat
}

/// `n` zero bytes.
pub open spec fn zeros(n: nat) -> Seq<u8> {
    Seq::new(n, |i: int| 0u8)
}

/// How many bytes announce a payload of `len` bytes.
pub open spec fn header_size(len: nat) -> nat {
    if len < 254 {
        1
    } else {
        4
    }
}

/// The bytes that announce a payload of `len` bytes: the length itself, or
/// the marker 254 and the length in three bytes.
pub open spec fn header(len: nat) -> Seq<u8> {
    if len < 254 {
        seq![len as u8]
    } else {
        seq![254u8] + le_bytes(len, 3)
    }
}

/// The encoding of the byte string `payload`.
pub open spec fn bytes_encoding(payload: Seq<u8>) -> MyResult<Seq<u8>> {
    let len = payload.len();
    if len < MAX_BYTES_LEN {
        Ok(header(len) + payload + zeros(padding(header_size(len) + len)))
    } else {
        Err(TlError::Format(FormatError::LengthOutOfRange(len as usize)))
    }
}

/// The payload length that the front of `bytes` announces, and the size of
/// the announcement.
pub open spec fn parse_header(bytes: Seq<u8>) -> MyResult<(nat, nat)> {
    match parse_u8(bytes) {
        Ok((first, _)) => if first < 254 {
            Ok((first as nat, 1))
        } else if first == 254 {
            match parse_u24(bytes.skip(1)) {
                Ok((len, _)) => Ok((len as nat, 4)),
                Err(e) => Err(e),
            }
        } else {
            Err(TlError::Format(FormatError::LengthOutOfRange(255)))
        },
        Err(e) => Err(e),
    }
}

/// The byte string at the front of `bytes`.
pub open spec fn bytes_decoding(bytes: Seq<u8>) -> MyResult<(Seq<u8>, nat)> {
    match parse_header(bytes) {
        Ok((len, head)) => {
            let end = head + len;
            let total = end + padding(end);
            if bytes.len() < total {
                Err(TlError::eof())
            } else if bytes.subrange(end as int, total as int) != zeros(padding(end)) {
                Err(TlError::Format(FormatError::NonZeroPadding))
            } else {
                Ok((bytes.subrange(head as int, end as int), total))
            }
        },
        Err(e) => Err(e),
    }
}

/// The size of an encoding is the header, the payload and at most three
/// bytes of padding, and is a multiple of four.
pub proof fn lemma_padding_law(payload: Seq<u8>)
    requires
        payload.len() < MAX_BYTES_LEN,
    ensures
        bytes_encoding(payload) is Ok,
        bytes_encoding(payload)->Ok_0.len() == header_size(payload.len()) + payload.len()
            + padding(header_size(payload.len()) + payload.len()),
        padding(header_size(payload.len()) + payload.len()) <= 3,
        bytes_encoding(payload)->Ok_0.len() % 4 == 0,
{
    lemma_le_bytes_len(payload.len(), 3);
}

/// A padding byte that is not zero makes the decoding fail.
pub proof fn lemma_padding_checked(bytes: Seq<u8>, i: int)
    requires
        parse_header(bytes) is Ok,
        ({
            let (len, head) = parse_header(bytes)->Ok_0;
            &&& head + len <= i < head + len + padding(head + len)
            &&& i < bytes.len()
            &&& bytes[i] != 0
        }),
    ensures
        bytes_decoding(bytes) is Err,
{
    let (len, head) = parse_header(bytes)->Ok_0;
    let end = head + len;
    let total = end + padding(end);
    if bytes.len() >= total {
        assert(bytes.subrange(end as int, total as int)[i - end] == bytes[i]);
        assert(zeros(padding(end))[i - end] == 0);
    }
}

/// Decoding undoes encoding, whatever follows the encoding.
pub proof fn lemma_bytes_round_trip(payload: Seq<u8>, rest: Seq<u8>)
    ensures
        bytes_encoding(payload) matches Ok(b) ==> bytes_decoding(b + rest) == Ok::<
            (Seq<u8>, nat),
            TlError,
        >((payload, b.len())),
{
    let len = payload.len();
    if len < MAX_BYTES_LEN {
        let head = header_size(len);
        let end = head + len;
        let pad = padding(end);
        let b = bytes_encoding(payload)->Ok_0;
        let all = b + rest;
        lemma_pow256_values();
        lemma_le_bytes_len(len, 3);
        assert(all.subrange(0, 1) =~= seq![all[0]]);
        if len >= 254 {
            lemma_le_round_trip(len, 3, payload + zeros(pad) + rest);
            assert(all.skip(1) =~= le_bytes(len, 3) + (payload + zeros(pad) + rest));
        }
        assert(parse_header(all) == Ok::<(nat, nat), TlError>((len, head)));
        assert(all.subrange(end as int, (end + pad) as int) =~= zeros(pad));
        assert(all.subrange(head as int, end as int) =~= payload);
    }
}

/// A byte string of the wire format.
#[derive(Clone, Debug, PartialEq, Eq)]
pub struct TLBytes(Vec<u8>);

impl View for TLBytes {
    type V = Seq<u8>;

    closed spec fn view(&self) -> Seq<u8> {
        self.0@
    }
}

impl TLBytes {
    pub fn from_bytes(bytes: Vec<u8>) -> (r: Self)
        ensures
            r@ == bytes@,
    {
        TLBytes(bytes)
    }

    pub fn into_bytes(self) -> (r: Vec<u8>)
        ensures
            r@ == self@,
    {
        self.0
    }

    pub fn as_slice(&self) -> (r: &[u8])
        ensures
            r@ == self@,
    {
        self.0.as_slice()
    }
}

/// Whether every byte of `chunk` is zero.
fn all_zero(chunk: &[u8]) -> (r: bool)
    ensures
        r == (chunk@ == zeros(chunk@.len())),
{
    let mut i: usize = 0;
    while i < chunk.len()
        invariant
            i <= chunk@.len(),
            forall|j: int| 0 <= j < i ==> chunk@[j] == 0,
        decreases chunk@.len() - i,
    {
        if chunk[i] != 0 {
            assert(zeros(chunk@.len())[i as int] == 0);
            return false;
        }
        i += 1;
    }
    assert(chunk@ =~= zeros(chunk@.len()));
    true
}

/// Takes a byte string from the source and hands out its payload as a slice
/// of the source.
pub fn read_payload<'a>(input: &mut ByteReader<'a>) -> (r: MyResult<&'a [u8]>)
    ensures
        final(input)@.in_bounds(),
        match bytes_decoding(old(input)@.remaining()) {
            Ok((m, n)) => r is Ok && r->Ok_0@ == m && final(input)@ == old(input)@.advance(n),
            Err(e) => r is Err && r->Err_0 == e && final(input)@ == old(input)@,
        },
{
    let ghost bytes = input@.remaining();
    let start = input.position();
    let first = match input.read_u8() {
        Ok(b) => b,
        Err(e) => {
            return Err(e);
        },
    };
    assert(bytes.subrange(0, 1)[0] == bytes[0]);
    let len: usize;
    let head: usize;
    if first < 254 {
        len = first as usize;
        head = 1;
    } else if first == 254 {
        assert(input@.remaining() =~= bytes.skip(1));
        match input.read_u24() {
            Ok(l) => {
                proof {
                    lemma_pow256_values();
                    lemma_le_value_bound(bytes.skip(1).subrange(0, 3));
                }
                len = l as usize;
                head = 4;
            },
            Err(e) => {
                input.set_position(start);
                return Err(e);
            },
        }
    } else {
        input.set_position(start);
        return Err(TlError::Format(FormatError::LengthOutOfRange(255)));
    }
    assert(parse_header(bytes) == Ok::<(nat, nat), TlError>((len as nat, head as nat)));
    let end = head + len;
    let pad = (4 - end % 4) % 4;
    assert(input@.remaining() =~= bytes.skip(head as int));
    let payload = match input.read_slice(len) {
        Ok(p) => p,
        Err(e) => {
            input.set_position(start);
            return Err(e);
        },
    };
    assert(payload@ =~= bytes.subrange(head as int, end as int));
    assert(input@.remaining() =~= bytes.skip(end as int));
    let tail = match input.read_slice(pad) {
        Ok(p) => p,
        Err(e) => {
            input.set_position(start);
            return Err(e);
        },
    };
    assert(tail@ =~= bytes.subrange(end as int, end + pad));
    if !all_zero(tail) {
        input.set_position(start);
        return Err(TlError::Format(FormatError::NonZeroPadding));
    }
    Ok(payload)
}

/// Appends the encoding of the byte string `payload` to the sink.
pub fn write_payload(payload: &[u8], output: &mut Vec<u8>) -> (r: MyResult<usize>)
    ensures
        match bytes_encoding(payload@) {
            Ok(b) => r == Ok::<usize, TlError>(b.len() as usize) && final(output)@ == old(output)@
                + b,
            Err(e) => r == Err::<usize, TlError>(e) && final(output)@ == old(output)@,
        },
{
    let len = payload.len();
    if len >= MAX_BYTES_LEN {
        return Err(TlError::Format(FormatError::LengthOutOfRange(len)));
    }
    let head: usize;
    if len < 254 {
        let _ = output.write_u8(len as u8);
        head = 1;
    } else {
        let _ = output.write_u8(254);
        let _ = output.write_u24(len as u32);
        head = 4;
    }
    assert(output@ =~= old(output)@ + header(len as nat));
    append_bytes(output, payload);
    let pad = (4 - (head + len) % 4) % 4;
    let mut i: usize = 0;
    while i < pad
        invariant
            i <= pad,
            output@ == old(output)@ + header(len as nat) + payload@ + zeros(i as nat),
        decreases pad - i,
    {
        output.push(0);
        i += 1;
        assert(output@ =~= old(output)@ + header(len as nat) + payload@ + zeros(i as nat));
    }
    proof {
        lemma_padding_law(payload@);
        assert(output@ =~= old(output)@ + bytes_encoding(payload@)->Ok_0);
    }
    Ok(head + len + pad)
}

impl TLType for TLBytes {
    type Model = Seq<u8>;

    open spec fn model(&self) -> Seq<u8> {
        self@
    }

    open spec fn encoding(m: Seq<u8>) -> MyResult<Seq<u8>> {
        bytes_encoding(m)
    }

    open spec fn decoding(bytes: Seq<u8>) -> MyResult<(Seq<u8>, nat)> {
        bytes_decoding(bytes)
    }

    proof fn lemma_round_trip(m: Seq<u8>, rest: Seq<u8>) {
        lemma_bytes_round_trip(m, rest);
    }

    proof fn lemma_decoding_in_bounds(bytes: Seq<u8>) {
    }

    fn tl_read(input: &mut ByteReader) -> (r: MyResult<TLBytes>) {
        match read_payload(input) {
            Ok(payload) => Ok(TLBytes(slice_to_vec(payload))),
            Err(e) => Err(e),
        }
    }

    fn tl_write(&self, output: &mut Vec<u8>) -> (r: MyResult<usize>) {
        write_payload(self.0.as_slice(), output)
    }
}

} // verus!
