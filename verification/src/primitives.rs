//! Fixed-width identities and the small value types shared by every component.

use vstd::prelude::*;

verus! {

/// Number of slots in one epoch.
pub const SLOTS_PER_EPOCH: u64 = 32;

/// A value of exactly `N` bytes. Two values are equal exactly when their bytes agree.
#[derive(Clone, Copy, Debug, Eq, Hash)]
pub struct FixedBytes<const N: usize> {
    pub bytes: [u8; N],
}

/// A validator's public key: a compressed BLS12-381 G1 point.
pub type BlsPublicKey = FixedBytes<48>;

/// A validator's signature: a compressed BLS12-381 G2 point.
pub type BlsSignature = FixedBytes<96>;

/// The signer address of an operator.
pub type Address = FixedBytes<20>;

/// A 32-byte content identifier.
pub type Digest = FixedBytes<32>;

/// Why a byte string was not accepted as a key or a signature.
#[derive(Clone, Copy, Debug, PartialEq, Eq, Structural)]
pub enum BlsError {
    /// The byte string does not have the length of the encoding.
    InvalidByteLength,
}

/// Whether two byte arrays of one length hold the same bytes.
pub fn bytes_equal<const N: usize>(a: &[u8; N], b: &[u8; N]) -> (same: bool)
    ensures
        same == (*a == *b),
{
    let mut i: usize = 0;
    while i < N
        invariant
            i <= N,
            forall|j: int| 0 <= j < i ==> a@[j] == b@[j],
        decreases N - i,
    {
        if a[i] != b[i] {
            return false;
        }
        i = i + 1;
    }
    assert(*a =~= *b);
    true
}

impl<const N: usize> PartialEq for FixedBytes<N> {
    fn eq(&self, other: &FixedBytes<N>) -> (same: bool) {
        bytes_equal(&self.bytes, &other.bytes)
    }
}

impl<const N: usize> vstd::std_specs::cmp::PartialEqSpecImpl for FixedBytes<N> {
    open spec fn obeys_eq_spec() -> bool {
        true
    }

    open spec fn eq_spec(&self, other: &FixedBytes<N>) -> bool {
        *self == *other
    }
}

impl<const N: usize> View for FixedBytes<N> {
    type V = Seq<u8>;

    open spec fn view(&self) -> Seq<u8> {
        self.bytes@
    }
}

impl<const N: usize> FixedBytes<N> {
    /// The value whose bytes are all zero.
    pub fn zero() -> (out: Self)
        ensures
            out@ == Seq::new(N as nat, |i: int| 0u8),
    {
        let out = FixedBytes { bytes: [0u8; N] };
        assert(out@ =~= Seq::new(N as nat, |i: int| 0u8));
        out
    }

    /// Reads a value from a byte string: accepted exactly when it holds `N` bytes, which
    /// are then the value's bytes.
    pub fn from_slice(bytes: &[u8]) -> (res: Option<Self>)
        ensures
            res is Some <==> bytes@.len() == N,
            res matches Some(value) ==> value@ == bytes@,
    {
        if bytes.len() != N {
            return None;
        }
        let mut out = [0u8; N];
        let mut i: usize = 0;
        while i < N
            invariant
                i <= N,
                bytes@.len() == N,
                forall|j: int| 0 <= j < i ==> out@[j] == bytes@[j],
            decreases N - i,
        {
            out[i] = bytes[i];
            i = i + 1;
        }
        assert(out@ =~= bytes@);
        Some(FixedBytes { bytes: out })
    }

    /// The value's bytes as a vector.
    pub fn to_vec(&self) -> (out: Vec<u8>)
        ensures
            out@ == self@,
    {
        let mut out: Vec<u8> = Vec::new();
        let mut i: usize = 0;
        while i < N
            invariant
                i <= N,
                out@ == self@.take(i as int),
            decreases N - i,
        {
            out.push(self.bytes[i]);
            assert(self@.take(i + 1) =~= self@.take(i as int).push(self@[i as int]));
            i = i + 1;
        }
        assert(self@.take(N as int) =~= self@);
        out
    }
}

/// Equal byte strings make equal values.
pub proof fn lemma_fixed_bytes_ext<const N: usize>(a: FixedBytes<N>, b: FixedBytes<N>)
    ensures
        a@ == b@ <==> a == b,
{
    if a@ == b@ {
        assert(a.bytes =~= b.bytes);
    }
}

impl FixedBytes<48> {
    /// Reads a public key from its compressed encoding: accepted exactly when `bytes`
    /// holds 48 bytes. Whether the bytes are a point of the curve is not looked at.
    pub fn from_bytes(bytes: &[u8]) -> (res: Result<BlsPublicKey, BlsError>)
        ensures
            res is Ok <==> bytes@.len() == 48,
            res matches Ok(key) ==> key@ == bytes@,
            res matches Err(e) ==> e == BlsError::InvalidByteLength,
    {
        match FixedBytes::<48>::from_slice(bytes) {
            Some(key) => Ok(key),
            None => Err(BlsError::InvalidByteLength),
        }
    }
}

/// An unsigned 256-bit amount, held as its 32 little-endian magnitude bytes.
#[derive(Clone, Copy, Debug, PartialEq, Eq)]
pub struct U256 {
    pub le_bytes: [u8; 32],
}

impl View for U256 {
    type V = Seq<u8>;

    open spec fn view(&self) -> Seq<u8> {
        self.le_bytes@
    }
}

/// The high-water mark that the sync engine has reconciled to.
#[derive(Clone, Copy, Debug, Default, PartialEq, Eq, Structural)]
pub struct SyncStateUpdate {
    pub block_number: u64,
    pub epoch: u64,
    pub slot: u64,
}

/// A beacon-node event that announces the build parameters of an upcoming slot.
#[derive(Clone, Copy, Debug, PartialEq, Eq, Structural)]
pub struct PayloadAttribute {
    pub proposal_slot: u64,
    pub parent_block_number: u64,
}

/// A beacon-node event that announces a new head block.
#[derive(Clone, Copy, Debug)]
pub struct NewHead {
    pub slot: u64,
    /// The root of the head block.
    pub block: Digest,
    /// Whether the head is the first block of its epoch.
    pub epoch_transition: bool,
}

/// The assignment of a validator to propose the block of a slot.
#[derive(Clone, Copy, Debug)]
pub struct ProposerDuty {
    pub public_key: BlsPublicKey,
    pub validator_index: u64,
    pub slot: u64,
}

/// What the beacon chain reports of one validator that is active at the head state.
#[derive(Clone, Copy, Debug)]
pub struct ValidatorSummary {
    pub index: u64,
    pub public_key: BlsPublicKey,
}

/// The characters of a text that may be missing.
pub open spec fn text_view(text: Option<String>) -> Option<Seq<char>> {
    match text {
        Some(s) => Some(s@),
        None => None,
    }
}

/// The epoch that a slot belongs to.
pub open spec fn spec_epoch_of_slot(slot: u64) -> u64 {
    (slot / 32) as u64
}

/// The epoch that a slot belongs to: epochs are runs of 32 slots.
#[verifier::when_used_as_spec(spec_epoch_of_slot)]
pub fn epoch_of_slot(slot: u64) -> (epoch: u64)
    ensures
        epoch == spec_epoch_of_slot(slot),
        epoch == slot / 32,
{
    slot / SLOTS_PER_EPOCH
}

} // verus!
