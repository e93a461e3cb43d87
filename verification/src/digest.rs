//! The content identifier of a registration: SHA-256 over the operator address and the
//! big-endian encodings of gas limit and expiry.

use vstd::prelude::*;
use crate::primitives::{Address, Digest, FixedBytes};

verus! {

/// The SHA-256 hash of a byte string: 32 bytes that depend on the bytes hashed alone.
pub uninterp spec fn sha256(data: Seq<u8>) -> Seq<u8>;

/// Calls `sha2::Sha256` (`new`, `update`, `finalize`) on `data`. Nothing is proved of the
/// hash function: the contract only gives its result the name `sha256`.
#[verifier::external_body]
fn sha256_digest(data: &[u8]) -> (out: [u8; 32])
    ensures
        out@ == sha256(data@),
{
    let mut hasher = <sha2::Sha256 as sha2::Digest>::new();
    sha2::Digest::update(&mut hasher, data);
    sha2::Digest::finalize(hasher).into()
}

/// The eight bytes of `x`, most significant first.
pub open spec fn be_bytes(x: u64) -> Seq<u8> {
    seq![
        (x / 0x100_0000_0000_0000) as u8,
        ((x / 0x1_0000_0000_0000) % 256) as u8,
        ((x / 0x100_0000_0000) % 256) as u8,
        ((x / 0x1_0000_0000) % 256) as u8,
        ((x / 0x100_0000) % 256) as u8,
        ((x / 0x1_0000) % 256) as u8,
        ((x / 0x100) % 256) as u8,
        (x % 256) as u8,
    ]
}

/// The number that eight bytes stand for, most significant byte first.
pub open spec fn from_be_bytes(b: Seq<u8>) -> int {
    b[0] * 0x100_0000_0000_0000 + b[1] * 0x1_0000_0000_0000 + b[2] * 0x100_0000_0000 + b[3]
        * 0x1_0000_0000 + b[4] * 0x100_0000 + b[5] * 0x1_0000 + b[6] * 0x100 + b[7]
}

/// The big-endian encoding loses nothing: the eight bytes of `x` stand for `x`.
pub proof fn lemma_be_bytes_roundtrip(x: u64)
    ensures
        be_bytes(x).len() == 8,
        from_be_bytes(be_bytes(x)) == x,
{
    let b0: u64 = x / 0x100_0000_0000_0000;
    let b1: u64 = (x / 0x1_0000_0000_0000) % 256;
    let b2: u64 = (x / 0x100_0000_0000) % 256;
    let b3: u64 = (x / 0x1_0000_0000) % 256;
    let b4: u64 = (x / 0x100_0000) % 256;
    let b5: u64 = (x / 0x1_0000) % 256;
    let b6: u64 = (x / 0x100) % 256;
    let b7: u64 = x % 256;
    assert(b0 < 256 && b1 < 256 && b2 < 256 && b3 < 256 && b4 < 256 && b5 < 256 && b6 < 256 && b7
        < 256);
    assert(x == b0 * 0x100_0000_0000_0000 + b1 * 0x1_0000_0000_0000 + b2 * 0x100_0000_0000 + b3
        * 0x1_0000_0000 + b4 * 0x100_0000 + b5 * 0x1_0000 + b6 * 0x100 + b7) by (bit_vector)
        requires
            b0 == x / 0x100_0000_0000_0000,
            b1 == (x / 0x1_0000_0000_0000) % 256,
            b2 == (x / 0x100_0000_0000) % 256,
            b3 == (x / 0x1_0000_0000) % 256,
            b4 == (x / 0x100_0000) % 256,
            b5 == (x / 0x1_0000) % 256,
            b6 == (x / 0x100) % 256,
            b7 == x % 256,
    ;
    let b = be_bytes(x);
    assert(b[0] == b0 && b[1] == b1 && b[2] == b2 && b[3] == b3 && b[4] == b4 && b[5] == b5 && b[6]
        == b6 && b[7] == b7);
}

/// Appends the big-endian encoding of `x` to `out`.
fn push_be_bytes(out: &mut Vec<u8>, x: u64)
    ensures
        final(out)@ == old(out)@ + be_bytes(x),
{
    out.push((x / 0x100_0000_0000_0000) as u8);
    out.push(((x / 0x1_0000_0000_0000) % 256) as u8);
    out.push(((x / 0x100_0000_0000) % 256) as u8);
    out.push(((x / 0x1_0000_0000) % 256) as u8);
    out.push(((x / 0x100_0000) % 256) as u8);
    out.push(((x / 0x1_0000) % 256) as u8);
    out.push(((x / 0x100) % 256) as u8);
    out.push((x % 256) as u8);
    assert(out@ =~= old(out)@ + be_bytes(x));
}

/// The bytes that are hashed for a registration: the operator's 20 bytes, then gas limit
/// and expiry, eight big-endian bytes each.
pub open spec fn digest_preimage(operator: Address, gas_limit: u64, expiry: u64) -> Seq<u8> {
    operator@ + be_bytes(gas_limit) + be_bytes(expiry)
}

/// The digest of a registration, as a byte string.
pub open spec fn registration_digest(operator: Address, gas_limit: u64, expiry: u64) -> Seq<u8> {
    sha256(digest_preimage(operator, gas_limit, expiry))
}

/// Builds the 36 bytes that are hashed for a registration.
pub fn preimage(operator: Address, gas_limit: u64, expiry: u64) -> (out: Vec<u8>)
    ensures
        out@ == digest_preimage(operator, gas_limit, expiry),
        out@.len() == 36,
{
    let mut out = operator.to_vec();
    push_be_bytes(&mut out, gas_limit);
    push_be_bytes(&mut out, expiry);
    out
}

impl FixedBytes<32> {
    /// The digest of a registration: SHA-256 over operator, gas limit and expiry, the two
    /// numbers in big-endian encoding, whatever the byte order of the machine.
    pub fn from_parts(operator: Address, gas_limit: u64, expiry: u64) -> (out: Digest)
        ensures
            out@ == registration_digest(operator, gas_limit, expiry),
    {
        let data = preimage(operator, gas_limit, expiry);
        FixedBytes { bytes: sha256_digest(data.as_slice()) }
    }
}

} // verus!
