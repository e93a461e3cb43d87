//! The records of the registry: registrations, operators and what discovery returns.

use vstd::prelude::*;
use std::collections::HashMap;
use crate::digest::registration_digest;
use crate::keyed::KeyedStore;
use crate::primitives::{Address, BlsPublicKey, BlsSignature, Digest, U256};

verus! {

/// One validator's commitment to be represented by an operator.
#[derive(Clone, Copy, Debug)]
pub struct Registration {
    pub validator_pubkey: BlsPublicKey,
    /// The validator's index in the beacon chain when the registration was stored.
    pub validator_index: u64,
    pub operator: Address,
    pub gas_limit: u64,
    /// Seconds since the epoch; 0 never expires.
    pub expiry: u64,
    /// Absent where the registration came from an enrollment directory.
    pub signature: Option<BlsSignature>,
}

/// One validator's withdrawal from the registry.
#[derive(Clone, Copy, Debug)]
pub struct Deregistration {
    pub validator_pubkey: BlsPublicKey,
    pub operator: Address,
    pub signature: BlsSignature,
}

/// What discovery returns of a registered validator: the registration joined with its
/// operator's endpoint.
#[derive(Debug)]
pub struct RegistryEntry {
    pub validator_pubkey: BlsPublicKey,
    pub operator: Address,
    pub gas_limit: u64,
    pub rpc_endpoint: String,
}

/// A registry entry as a plain value.
pub struct RegistryEntryView {
    pub validator_pubkey: BlsPublicKey,
    pub operator: Address,
    pub gas_limit: u64,
    pub rpc_endpoint: Seq<char>,
}

impl View for RegistryEntry {
    type V = RegistryEntryView;

    open spec fn view(&self) -> RegistryEntryView {
        RegistryEntryView {
            validator_pubkey: self.validator_pubkey,
            operator: self.operator,
            gas_limit: self.gas_limit,
            rpc_endpoint: self.rpc_endpoint@,
        }
    }
}

impl Clone for RegistryEntry {
    fn clone(&self) -> (out: RegistryEntry)
        ensures
            out@ == self@,
    {
        RegistryEntry {
            validator_pubkey: self.validator_pubkey,
            operator: self.operator,
            gas_limit: self.gas_limit,
            rpc_endpoint: self.rpc_endpoint.clone(),
        }
    }
}

/// The off-chain party that signs commitments for a set of validators.
#[derive(Debug)]
pub struct Operator {
    pub signer: Address,
    pub rpc_endpoint: String,
    pub collateral_tokens: Vec<Address>,
    /// Each amount belongs to the token at the same index.
    pub collateral_amounts: Vec<U256>,
}

/// An operator as a plain value.
pub struct OperatorView {
    pub signer: Address,
    pub rpc_endpoint: Seq<char>,
    pub collateral_tokens: Seq<Address>,
    pub collateral_amounts: Seq<U256>,
}

impl View for Operator {
    type V = OperatorView;

    open spec fn view(&self) -> OperatorView {
        OperatorView {
            signer: self.signer,
            rpc_endpoint: self.rpc_endpoint@,
            collateral_tokens: self.collateral_tokens@,
            collateral_amounts: self.collateral_amounts@,
        }
    }
}

/// Copies a vector of plain values.
pub fn copy_vec<T: Copy>(items: &Vec<T>) -> (out: Vec<T>)
    ensures
        out@ == items@,
{
    let mut out: Vec<T> = Vec::new();
    let mut i: usize = 0;
    while i < items.len()
        invariant
            i <= items@.len(),
            out@ == items@.take(i as int),
        decreases items@.len() - i,
    {
        out.push(items[i]);
        assert(items@.take(i + 1) =~= items@.take(i as int).push(items@[i as int]));
        i = i + 1;
    }
    assert(items@.take(items@.len() as int) =~= items@);
    out
}

impl Clone for Operator {
    fn clone(&self) -> (out: Operator)
        ensures
            out@ == self@,
    {
        Operator {
            signer: self.signer,
            rpc_endpoint: self.rpc_endpoint.clone(),
            collateral_tokens: copy_vec(&self.collateral_tokens),
            collateral_amounts: copy_vec(&self.collateral_amounts),
        }
    }
}

impl OperatorView {
    /// Every collateral token has its amount.
    pub open spec fn wf(self) -> bool {
        self.collateral_tokens.len() == self.collateral_amounts.len()
    }
}

impl Operator {
    /// Every collateral token has its amount.
    pub open spec fn wf(&self) -> bool {
        self@.wf()
    }

    /// Whether every collateral token has its amount.
    pub fn is_well_formed(&self) -> (ok: bool)
        ensures
            ok == self.wf(),
    {
        self.collateral_tokens.len() == self.collateral_amounts.len()
    }

    /// An operator without collateral.
    pub fn without_collateral(signer: Address, rpc_endpoint: String) -> (out: Operator)
        ensures
            out.wf(),
            out@ == (OperatorView {
                signer,
                rpc_endpoint: rpc_endpoint@,
                collateral_tokens: Seq::empty(),
                collateral_amounts: Seq::empty(),
            }),
    {
        Operator {
            signer,
            rpc_endpoint,
            collateral_tokens: Vec::new(),
            collateral_amounts: Vec::new(),
        }
    }
}

/// The registered proposers of an epoch, by proposal slot.
pub type Lookahead = HashMap<u64, RegistryEntry>;

/// The smaller of two lengths.
pub open spec fn shorter(a: nat, b: nat) -> nat {
    if a <= b {
        a
    } else {
        b
    }
}

/// Registrations of several validators under one operator, with one signature for each
/// validator.
#[derive(Clone, Debug)]
pub struct RegistrationBatch {
    pub validator_pubkeys: Vec<BlsPublicKey>,
    pub operator: Address,
    pub gas_limit: u64,
    /// Seconds since the epoch; 0 never expires.
    pub expiry: u64,
    /// The signature at an index belongs to the validator at that index.
    pub signatures: Vec<BlsSignature>,
}

impl RegistrationBatch {
    /// There is one signature for each validator.
    pub open spec fn wf(&self) -> bool {
        self.validator_pubkeys@.len() == self.signatures@.len()
    }

    /// Makes a batch; refused exactly when the numbers of validators and signatures differ.
    pub fn new(
        validator_pubkeys: Vec<BlsPublicKey>,
        operator: Address,
        gas_limit: u64,
        expiry: u64,
        signatures: Vec<BlsSignature>,
    ) -> (out: Option<RegistrationBatch>)
        ensures
            out is Some <==> validator_pubkeys@.len() == signatures@.len(),
            out matches Some(batch) ==> {
                &&& batch.wf()
                &&& batch.validator_pubkeys == validator_pubkeys
                &&& batch.operator == operator
                &&& batch.gas_limit == gas_limit
                &&& batch.expiry == expiry
                &&& batch.signatures == signatures
            },
    {
        if validator_pubkeys.len() != signatures.len() {
            return None;
        }
        Some(RegistrationBatch { validator_pubkeys, operator, gas_limit, expiry, signatures })
    }

    /// Whether there is one signature for each validator.
    pub fn is_well_formed(&self) -> (ok: bool)
        ensures
            ok == self.wf(),
    {
        self.validator_pubkeys.len() == self.signatures.len()
    }

    /// The digest that the batch's signatures are made over.
    pub fn digest(&self) -> (out: Digest)
        ensures
            out@ == registration_digest(self.operator, self.gas_limit, self.expiry),
    {
        Digest::from_parts(self.operator, self.gas_limit, self.expiry)
    }

    /// The registration of the validator at index `i`, with the index that the beacon
    /// chain reports for it.
    pub open spec fn item(&self, i: int, validator_index: u64) -> Registration {
        Registration {
            validator_pubkey: self.validator_pubkeys@[i],
            validator_index,
            operator: self.operator,
            gas_limit: self.gas_limit,
            expiry: self.expiry,
            signature: Some(self.signatures@[i]),
        }
    }

    /// The registrations of the first `n` validators that `index_of` knows, in order.
    pub open spec fn items_upto(&self, index_of: Map<BlsPublicKey, u64>, n: int) -> Seq<
        Registration,
    >
        decreases n,
    {
        if n <= 0 {
            Seq::empty()
        } else {
            let before = self.items_upto(index_of, n - 1);
            let key = self.validator_pubkeys@[n - 1];
            if index_of.contains_key(key) {
                before.push(self.item(n - 1, index_of[key]))
            } else {
                before
            }
        }
    }

    /// The registrations of the batch: one for each validator that has a signature and
    /// that `index_of` knows, in the order of the batch.
    pub open spec fn items(&self, index_of: Map<BlsPublicKey, u64>) -> Seq<Registration> {
        self.items_upto(
            index_of,
            shorter(self.validator_pubkeys@.len(), self.signatures@.len()) as int,
        )
    }

    /// Splits the batch into the registrations of its validators. Each registration
    /// carries the validator's index from `index_map`; a validator that `index_map` does
    /// not know is left out.
    pub fn into_items(self, index_map: &KeyedStore<48, u64>) -> (out: Vec<Registration>)
        requires
            index_map.wf(),
        ensures
            out@ == self.items(index_map.map()),
    {
        let n = if self.validator_pubkeys.len() <= self.signatures.len() {
            self.validator_pubkeys.len()
        } else {
            self.signatures.len()
        };
        let mut out: Vec<Registration> = Vec::new();
        let mut i: usize = 0;
        while i < n
            invariant
                index_map.wf(),
                i <= n,
                n == shorter(self.validator_pubkeys@.len(), self.signatures@.len()),
                out@ == self.items_upto(index_map.map(), i as int),
            decreases n - i,
        {
            let key = self.validator_pubkeys[i];
            match index_map.get(&key) {
                Some(validator_index) => {
                    out.push(
                        Registration {
                            validator_pubkey: key,
                            validator_index: *validator_index,
                            operator: self.operator,
                            gas_limit: self.gas_limit,
                            expiry: self.expiry,
                            signature: Some(self.signatures[i]),
                        },
                    );
                },
                None => {},
            }
            i = i + 1;
        }
        out
    }

    /// Every registration that comes out of a batch carries the batch's operator, gas
    /// limit and expiry, a signature, and for its validator the index that `index_of`
    /// holds.
    pub proof fn lemma_items_carry_known_index(&self, index_of: Map<BlsPublicKey, u64>, n: int)
        ensures
            forall|i: int|
                0 <= i < self.items_upto(index_of, n).len() ==> {
                    let r = #[trigger] self.items_upto(index_of, n)[i];
                    &&& index_of.contains_key(r.validator_pubkey)
                    &&& r.validator_index == index_of[r.validator_pubkey]
                    &&& r.operator == self.operator
                    &&& r.gas_limit == self.gas_limit
                    &&& r.expiry == self.expiry
                    &&& r.signature is Some
                },
        decreases n,
    {
        if n > 0 {
            self.lemma_items_carry_known_index(index_of, n - 1);
        }
    }

    /// Where `index_of` knows each of the first `n` validators, each of them gets its
    /// registration, at its own index.
    pub proof fn lemma_items_keep_every_validator(
        &self,
        index_of: Map<BlsPublicKey, u64>,
        n: int,
    )
        requires
            0 <= n <= self.validator_pubkeys@.len(),
            forall|j: int| 0 <= j < n ==> index_of.contains_key(#[trigger] self.validator_pubkeys@[j]),
        ensures
            self.items_upto(index_of, n).len() == n,
            forall|j: int|
                0 <= j < n ==> #[trigger] self.items_upto(index_of, n)[j] == self.item(
                    j,
                    index_of[self.validator_pubkeys@[j]],
                ),
        decreases n,
    {
        if n > 0 {
            self.lemma_items_keep_every_validator(index_of, n - 1);
        }
    }
}

/// Withdrawals of several validators under one operator, with one signature for each
/// validator.
#[derive(Clone, Debug)]
pub struct DeregistrationBatch {
    pub validator_pubkeys: Vec<BlsPublicKey>,
    pub operator: Address,
    /// The signature at an index belongs to the validator at that index.
    pub signatures: Vec<BlsSignature>,
}

impl DeregistrationBatch {
    /// There is one signature for each validator.
    pub open spec fn wf(&self) -> bool {
        self.validator_pubkeys@.len() == self.signatures@.len()
    }

    /// Makes a batch; refused exactly when the numbers of validators and signatures differ.
    pub fn new(
        validator_pubkeys: Vec<BlsPublicKey>,
        operator: Address,
        signatures: Vec<BlsSignature>,
    ) -> (out: Option<DeregistrationBatch>)
        ensures
            out is Some <==> validator_pubkeys@.len() == signatures@.len(),
            out matches Some(batch) ==> {
                &&& batch.wf()
                &&& batch.validator_pubkeys == validator_pubkeys
                &&& batch.operator == operator
                &&& batch.signatures == signatures
            },
    {
        if validator_pubkeys.len() != signatures.len() {
            return None;
        }
        Some(DeregistrationBatch { validator_pubkeys, operator, signatures })
    }

    /// Whether there is one signature for each validator.
    pub fn is_well_formed(&self) -> (ok: bool)
        ensures
            ok == self.wf(),
    {
        self.validator_pubkeys.len() == self.signatures.len()
    }

    /// The withdrawals of the batch: one for each validator that has a signature, in the
    /// order of the batch.
    pub open spec fn items(&self) -> Seq<Deregistration> {
        Seq::new(
            shorter(self.validator_pubkeys@.len(), self.signatures@.len()),
            |i: int|
                Deregistration {
                    validator_pubkey: self.validator_pubkeys@[i],
                    operator: self.operator,
                    signature: self.signatures@[i],
                },
        )
    }

    /// Splits the batch into the withdrawals of its validators.
    pub fn into_items(self) -> (out: Vec<Deregistration>)
        ensures
            out@ == self.items(),
    {
        let n = if self.validator_pubkeys.len() <= self.signatures.len() {
            self.validator_pubkeys.len()
        } else {
            self.signatures.len()
        };
        let mut out: Vec<Deregistration> = Vec::new();
        let mut i: usize = 0;
        while i < n
            invariant
                i <= n,
                n == shorter(self.validator_pubkeys@.len(), self.signatures@.len()),
                out@ == self.items().take(i as int),
            decreases n - i,
        {
            out.push(
                Deregistration {
                    validator_pubkey: self.validator_pubkeys[i],
                    operator: self.operator,
                    signature: self.signatures[i],
                },
            );
            assert(self.items().take(i + 1) =~= self.items().take(i as int).push(
                self.items()[i as int],
            ));
            i = i + 1;
        }
        assert(self.items().take(n as int) =~= self.items());
        out
    }
}

} // verus!
