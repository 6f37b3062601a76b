//! Textbook RSA with the server's public key, as the key exchange needs it.

use crate::utils::endian::{be_value, le_value, lemma_be_laws, pow256};
use openssl::bn::{BigNum, BigNumContext};
use openssl::rsa::Rsa;
use vstd::arithmetic::div_mod::lemma_mod_bound;
use vstd::arithmetic::power::pow;
use vstd::prelude::*;

verus! {

/// The server's public key, in PEM.
pub const SERVER_PUBLIC_KEY: &'static str =
    "-----BEGIN RSA PUBLIC KEY-----\nMIIBCgKCAQEAwVACPi9w23mF3tBkdZz+zwrzKOaaQdr01vAbU4E1pvkfj4sqDsm6\nlyDONS789sVoD/xCS9Y0hkkC3gtL1tSfTlgCMOOul9lcixlEKzwKENj1Yz/s7daS\nan9tqw3bfUV/nqgbhGX81v/+7RFAEd+RwFnK7a+XYl9sluzHRyVVaTTveB2GazTw\nEfzk2DWgkBluml8OREmvfraX3bkHZJTKX4EQSjBbbdJ2ZXIsRrYOXfaA+xayEGB+\n8hdlLmAjbCVfaigxX0CDqWeR1yFL9kwd9P0NsZRPsmoqVwMbMu7mStFai6aIhc3n\nSlv8kg9qv1m6XHVQY3PnEw+QQtqSIXklHwIDAQAB\n-----END RSA PUBLIC KEY-----";

/// The longest number, in bytes, that the big-number library takes.
pub const MAX_NUMBER_LEN: usize = 0x7fff_ffff;

/// The longest document, in characters, that is handed to the PEM reader:
/// a text of so many characters has no more bytes than the reader takes.
pub const MAX_PEM_LEN: usize = 0x1fff_ffff;

/// The size of an encrypted block in bytes.
pub const BLOCK_LEN: usize = 256;

/// The modulus and the public exponent, most significant byte first, of
/// the RSA public key that `pem` holds in PKCS#1; nothing where the reader
/// finds no key in it.
pub uninterp spec fn pkcs1_public_key(pem: Seq<char>) -> Option<(Seq<u8>, Seq<u8>)>;

/// What the big-number library's modular power hands back for the three
/// numbers, given most significant byte first; nothing where it reports a
/// failure.
pub uninterp spec fn mod_exp_outcome(
    base: Seq<u8>,
    exponent: Seq<u8>,
    modulus: Seq<u8>,
) -> Option<Seq<u8>>;

/// The bytes of a key that was read, if one was.
pub open spec fn key_view(key: Option<(Vec<u8>, Vec<u8>)>) -> Option<(Seq<u8>, Seq<u8>)> {
    match key {
        Some((n, e)) => Some((n@, e@)),
        None => None,
    }
}

/// The bytes of a number that came back, if one did.
pub open spec fn number_view(number: Option<Vec<u8>>) -> Option<Seq<u8>> {
    match number {
        Some(c) => Some(c@),
        None => None,
    }
}

/// The bytes of a block that came back, if one did.
pub open spec fn block_view(block: Option<[u8; 256]>) -> Option<Seq<u8>> {
    match block {
        Some(out) => Some(out@),
        None => None,
    }
}

/// `openssl::rsa::Rsa::public_key_from_pem_pkcs1`, with the key's `n` and
/// `e` written out by `to_vec`: the modulus and the exponent of the key
/// that the document holds, which depend on the document alone. The call
/// panics on a document of more than 2^31 - 1 bytes, which one within
/// `MAX_PEM_LEN` characters cannot have.
#[verifier::external_body]
pub(crate) fn public_key_from_pem(pem: &str) -> (r: Option<(Vec<u8>, Vec<u8>)>)
    requires
        pem@.len() <= MAX_PEM_LEN,
    ensures
        key_view(r) == pkcs1_public_key(pem@),
{
    let key = Rsa::public_key_from_pem_pkcs1(pem.as_bytes()).ok()?;
    Some((key.n().to_vec(), key.e().to_vec()))
}

/// `openssl::bn::BigNumRef::mod_exp` on numbers given and returned as
/// big-endian bytes (`BigNum::from_slice`, `to_vec`). What comes back
/// depends on the three numbers alone and has no leading zero byte; for a
/// modulus above zero it is `base` to the power `exponent` modulo
/// `modulus`. `from_slice` panics on more than 2^31 - 1 bytes.
#[verifier::external_body]
pub(crate) fn mod_exp(base: &[u8], exponent: &[u8], modulus: &[u8]) -> (r: Option<Vec<u8>>)
    requires
        base@.len() <= MAX_NUMBER_LEN,
        exponent@.len() <= MAX_NUMBER_LEN,
        modulus@.len() <= MAX_NUMBER_LEN,
    ensures
        number_view(r) == mod_exp_outcome(base@, exponent@, modulus@),
        r matches Some(c) ==> (c@.len() > 0 ==> c@[0] != 0),
        r matches Some(c) ==> (be_value(modulus@) > 0 ==> be_value(c@) == pow(
            be_value(base@) as int,
            be_value(exponent@),
        ) % (be_value(modulus@) as int)),
{
    let mut context = BigNumContext::new().ok()?;
    let a = BigNum::from_slice(base).ok()?;
    let p = BigNum::from_slice(exponent).ok()?;
    let m = BigNum::from_slice(modulus).ok()?;
    let mut c = BigNum::new().ok()?;
    c.mod_exp(&a, &p, &m, &mut context).ok()?;
    Some(c.to_vec())
}

/// `n` zero bytes.
pub open spec fn zero_bytes(n: nat) -> Seq<u8> {
    Seq::new(n, |i: int| 0u8)
}

/// The number `bytes` in `width` bytes: zero bytes fill the front.
pub open spec fn padded(bytes: Seq<u8>, width: nat) -> Seq<u8> {
    zero_bytes((width - bytes.len()) as nat) + bytes
}

/// What `rsa_with_key` hands back: nothing for a modulus of zero and for a
/// modulus or an exponent longer than the big-number library takes; else
/// what the library's modular power hands back, in 256 bytes, if it fits.
pub open spec fn block_outcome(data: Seq<u8>, modulus: Seq<u8>, exponent: Seq<u8>) -> Option<
    Seq<u8>,
> {
    if modulus.len() > MAX_NUMBER_LEN || exponent.len() > MAX_NUMBER_LEN || be_value(modulus)
        == 0 {
        None
    } else {
        match mod_exp_outcome(data, exponent, modulus) {
            Some(c) => if c.len() <= BLOCK_LEN {
                Some(padded(c, BLOCK_LEN as nat))
            } else {
                None
            },
            None => None,
        }
    }
}

/// What `rsa` hands back: the block for the key that the server's document
/// holds, nothing where it holds none.
pub open spec fn rsa_outcome(data: Seq<u8>) -> Option<Seq<u8>> {
    match pkcs1_public_key(SERVER_PUBLIC_KEY@) {
        Some((n, e)) => block_outcome(data, n, e),
        None => None,
    }
}

/// A little-endian number is zero exactly where all its bytes are.
proof fn lemma_le_zero(bytes: Seq<u8>)
    ensures
        le_value(bytes) == 0 <==> forall|i: int| 0 <= i < bytes.len() ==> bytes[i] == 0,
    decreases bytes.len(),
{
    if bytes.len() > 0 {
        let tail = bytes.skip(1);
        lemma_le_zero(tail);
        if le_value(bytes) == 0 {
            assert forall|i: int| 0 <= i < bytes.len() implies bytes[i] == 0 by {
                if i > 0 {
                    assert(tail[i - 1] == bytes[i]);
                }
            }
        }
        if forall|i: int| 0 <= i < bytes.len() ==> bytes[i] == 0 {
            assert forall|i: int| 0 <= i < tail.len() implies tail[i] == 0 by {
                assert(tail[i] == bytes[i + 1]);
            }
        }
    }
}

/// A number is zero exactly where all its bytes are.
pub proof fn lemma_be_zero(bytes: Seq<u8>)
    ensures
        be_value(bytes) == 0 <==> forall|i: int| 0 <= i < bytes.len() ==> bytes[i] == 0,
{
    let rev = bytes.reverse();
    lemma_le_zero(rev);
    if be_value(bytes) == 0 {
        assert forall|i: int| 0 <= i < bytes.len() implies bytes[i] == 0 by {
            assert(rev[bytes.len() - 1 - i] == bytes[i]);
        }
    }
    if forall|i: int| 0 <= i < bytes.len() ==> bytes[i] == 0 {
        assert forall|i: int| 0 <= i < rev.len() implies rev[i] == 0 by {
            assert(rev[i] == bytes[bytes.len() - 1 - i]);
        }
    }
}

/// A little-endian number whose last byte is not zero is at least `256` to
/// the power of the number of bytes before it.
proof fn lemma_le_at_least(bytes: Seq<u8>)
    requires
        bytes.len() > 0,
        bytes.last() != 0,
    ensures
        le_value(bytes) >= pow256((bytes.len() - 1) as nat),
    decreases bytes.len(),
{
    if bytes.len() > 1 {
        let tail = bytes.skip(1);
        assert(tail.last() == bytes.last());
        lemma_le_at_least(tail);
    } else {
        assert(bytes.skip(1).len() == 0);
        assert(bytes[0] == bytes.last());
    }
}

/// More bytes hold more values.
proof fn lemma_pow256_grows(a: nat, b: nat)
    requires
        a <= b,
    ensures
        pow256(a) <= pow256(b),
        pow256(a) > 0,
    decreases b,
{
    if a < b {
        lemma_pow256_grows(a, (b - 1) as nat);
    } else if a > 0 {
        lemma_pow256_grows((a - 1) as nat, (a - 1) as nat);
    }
}

/// A number without a leading zero byte that is below a number of `width`
/// bytes has no more than `width` bytes.
pub proof fn lemma_fits(c: Seq<u8>, bound: Seq<u8>, width: nat)
    requires
        c.len() > 0 ==> c[0] != 0,
        be_value(c) < be_value(bound),
        bound.len() <= width,
    ensures
        c.len() <= width,
{
    lemma_be_laws(0, 0, bound);
    lemma_pow256_grows(bound.len(), width);
    if c.len() > width {
        let rev = c.reverse();
        assert(rev.last() == c[0]);
        lemma_le_at_least(rev);
        lemma_pow256_grows(width, (c.len() - 1) as nat);
    }
}

/// Zero bytes in front of a number do not change it.
pub proof fn lemma_leading_zeros(zeros: Seq<u8>, bytes: Seq<u8>)
    requires
        forall|i: int| 0 <= i < zeros.len() ==> zeros[i] == 0,
    ensures
        be_value(zeros + bytes) == be_value(bytes),
    decreases zeros.len(),
{
    lemma_trailing_zeros(bytes.reverse(), zeros.reverse());
    assert((zeros + bytes).reverse() =~= bytes.reverse() + zeros.reverse());
}

/// Zero bytes behind a little-endian number do not change it.
proof fn lemma_trailing_zeros(bytes: Seq<u8>, zeros: Seq<u8>)
    requires
        forall|i: int| 0 <= i < zeros.len() ==> zeros[i] == 0,
    ensures
        le_value(bytes + zeros) == le_value(bytes),
    decreases bytes.len() + zeros.len(),
{
    let all = bytes + zeros;
    if bytes.len() > 0 {
        lemma_trailing_zeros(bytes.skip(1), zeros);
        assert(all.skip(1) =~= bytes.skip(1) + zeros);
    } else if zeros.len() > 0 {
        lemma_trailing_zeros(bytes, zeros.skip(1));
        assert(all.skip(1) =~= bytes + zeros.skip(1));
        assert(all[0] == zeros[0]);
        assert(bytes + zeros.skip(1) =~= zeros.skip(1));
        assert(bytes =~= Seq::<u8>::empty());
    }
}

/// The number `bytes` in exactly `N` bytes, most significant first: zero
/// bytes fill the front. A number of more than `N` bytes does not fit.
pub fn left_pad<const N: usize>(bytes: &[u8]) -> (r: Option<[u8; N]>)
    ensures
        r is Some <==> bytes@.len() <= N,
        r matches Some(out) ==> {
            &&& out@.subrange(N - bytes@.len(), N as int) == bytes@
            &&& forall|i: int| 0 <= i < N - bytes@.len() ==> out@[i] == 0
            &&& be_value(out@) == be_value(bytes@)
        },
{
    let len = bytes.len();
    if len > N {
        return None;
    }
    let gap = N - len;
    let mut out = [0u8;N];
    let mut i: usize = 0;
    while i < len
        invariant
            i <= len,
            len == bytes@.len(),
            gap == N - len,
            forall|k: int| 0 <= k < gap ==> out@[k] == 0,
            forall|k: int| 0 <= k < i ==> out@[gap + k] == bytes@[k],
        decreases len - i,
    {
        out[gap + i] = bytes[i];
        i += 1;
    }
    proof {
        let zeros = out@.subrange(0, gap as int);
        assert(out@.subrange(gap as int, N as int) =~= bytes@);
        assert(out@ =~= zeros + bytes@);
        lemma_leading_zeros(zeros, bytes@);
    }
    Some(out)
}

/// The server's document is short enough for the PEM reader.
proof fn lemma_document_len()
    ensures
        SERVER_PUBLIC_KEY@.len() <= MAX_PEM_LEN,
{
    reveal_strlit("-----BEGIN RSA PUBLIC KEY-----\nMIIBCgKCAQEAwVACPi9w23mF3tBkdZz+zwrzKOaaQdr01vAbU4E1pvkfj4sqDsm6\nlyDONS789sVoD/xCS9Y0hkkC3gtL1tSfTlgCMOOul9lcixlEKzwKENj1Yz/s7daS\nan9tqw3bfUV/nqgbhGX81v/+7RFAEd+RwFnK7a+XYl9sluzHRyVVaTTveB2GazTw\nEfzk2DWgkBluml8OREmvfraX3bkHZJTKX4EQSjBbbdJ2ZXIsRrYOXfaA+xayEGB+\n8hdlLmAjbCVfaigxX0CDqWeR1yFL9kwd9P0NsZRPsmoqVwMbMu7mStFai6aIhc3n\nSlv8kg9qv1m6XHVQY3PnEw+QQtqSIXklHwIDAQAB\n-----END RSA PUBLIC KEY-----");
}

/// Whether the number `bytes` is zero.
pub fn is_zero(bytes: &[u8]) -> (r: bool)
    ensures
        r == (be_value(bytes@) == 0),
{
    let mut i: usize = 0;
    while i < bytes.len()
        invariant
            i <= bytes@.len(),
            forall|j: int| 0 <= j < i ==> bytes@[j] == 0,
        decreases bytes@.len() - i,
    {
        if bytes[i] != 0 {
            proof {
                lemma_be_zero(bytes@);
            }
            return false;
        }
        i += 1;
    }
    proof {
        lemma_be_zero(bytes@);
    }
    true
}

/// The modulus and the public exponent of the server's key: what the PEM
/// reader finds in the server's document.
pub fn server_public_key() -> (r: Option<(Vec<u8>, Vec<u8>)>)
    ensures
        key_view(r) == pkcs1_public_key(SERVER_PUBLIC_KEY@),
{
    proof {
        lemma_document_len();
    }
    public_key_from_pem(SERVER_PUBLIC_KEY)
}

/// `data` to the power `exponent` modulo `modulus`, all three most
/// significant byte first, in 256 bytes. A modulus of zero is refused, and
/// so are a modulus and an exponent longer than the big-number library
/// takes. For a modulus of up to 256 bytes the result always fits, so that
/// a block comes back whenever the library hands back a number.
pub fn rsa_with_key(data: &[u8; 255], modulus: &[u8], exponent: &[u8]) -> (r: Option<[u8; 256]>)
    ensures
        block_view(r) == block_outcome(data@, modulus@, exponent@),
        r matches Some(out) ==> be_value(modulus@) > 0 && be_value(out@) == pow(
            be_value(data@) as int,
            be_value(exponent@),
        ) % (be_value(modulus@) as int),
        modulus@.len() <= BLOCK_LEN && exponent@.len() <= MAX_NUMBER_LEN && be_value(modulus@) > 0
            ==> (r is Some <==> mod_exp_outcome(data@, exponent@, modulus@) is Some),
{
    if modulus.len() > MAX_NUMBER_LEN || exponent.len() > MAX_NUMBER_LEN || is_zero(modulus) {
        return None;
    }
    match mod_exp(data.as_slice(), exponent, modulus) {
        Some(c) => {
            proof {
                if modulus@.len() <= BLOCK_LEN {
                    lemma_mod_bound(
                        pow(be_value(data@) as int, be_value(exponent@)),
                        be_value(modulus@) as int,
                    );
                    lemma_fits(c@, modulus@, BLOCK_LEN as nat);
                }
            }
            let block = left_pad::<256>(c.as_slice());
            proof {
                if let Some(out) = block {
                    assert(out@ =~= padded(c@, BLOCK_LEN as nat));
                }
            }
            block
        },
        None => None,
    }
}

/// Textbook RSA with the server's public key: `data` to the power of the
/// key's exponent modulo its modulus, in 256 bytes.
pub fn rsa(data: &[u8; 255]) -> (r: Option<[u8; 256]>)
    ensures
        block_view(r) == rsa_outcome(data@),
        r matches Some(out) ==> pkcs1_public_key(SERVER_PUBLIC_KEY@) matches Some(
            (n, e),
        ) && be_value(n) > 0 && be_value(out@) == pow(be_value(data@) as int, be_value(e)) % (
        be_value(n) as int),
        match pkcs1_public_key(SERVER_PUBLIC_KEY@) {
            Some((n, e)) => n.len() <= BLOCK_LEN && e.len() <= MAX_NUMBER_LEN && be_value(n) > 0
                ==> (r is Some <==> mod_exp_outcome(data@, e, n) is Some),
            None => r is None,
        },
{
    match server_public_key() {
        Some((n, e)) => rsa_with_key(data, n.as_slice(), e.as_slice()),
        None => None,
    }
}

} // verus!
