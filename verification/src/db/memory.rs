//! The in-memory back-end.

use vstd::prelude::*;
use std::collections::HashMap;
use crate::db::DbResult;
use crate::keyed::KeyedStore;
use crate::primitives::{Address, BlsPublicKey, SyncStateUpdate};
use crate::records::{
    Deregistration, Operator, OperatorView, Registration, RegistryEntry, RegistryEntryView,
};

verus! {

broadcast use vstd::std_specs::hash::group_hash_axioms;

/// What a store holds, as plain maps.
pub struct DbState {
    /// Each registered validator's registration.
    pub registrations: Map<BlsPublicKey, Registration>,
    /// For a beacon-chain index, the validator that is registered with it. Where several
    /// are, it is the one that was registered with it last.
    pub index_to_pubkey: Map<u64, BlsPublicKey>,
    /// Each known operator, by signer.
    pub operators: Map<Address, OperatorView>,
    /// The high-water mark of the sync engine.
    pub sync_state: SyncStateUpdate,
}

impl DbState {
    /// Every registration is stored under its validator's key, every operator under its
    /// signer, every operator has an amount for each of its collateral tokens, and every
    /// index leads to a validator that is registered with that index.
    pub open spec fn consistent(self) -> bool {
        &&& forall|k: BlsPublicKey|
            self.registrations.contains_key(k) ==> (#[trigger] self.registrations[k]).validator_pubkey
                == k
        &&& forall|a: Address|
            self.operators.contains_key(a) ==> (#[trigger] self.operators[a]).signer == a
                && self.operators[a].wf()
        &&& forall|i: u64|
            self.index_to_pubkey.contains_key(i) ==> self.registrations.contains_key(
                #[trigger] self.index_to_pubkey[i],
            ) && self.registrations[self.index_to_pubkey[i]].validator_index == i
    }

    /// The ways from index to validator without the one that leads to `key` from the
    /// index of its registration.
    pub open spec fn forget_index(self, key: BlsPublicKey) -> Map<u64, BlsPublicKey> {
        if self.registrations.contains_key(key) {
            let index = self.registrations[key].validator_index;
            if self.index_to_pubkey.contains_key(index) && self.index_to_pubkey[index] == key {
                self.index_to_pubkey.remove(index)
            } else {
                self.index_to_pubkey
            }
        } else {
            self.index_to_pubkey
        }
    }

    /// The state after one registration is stored: it replaces what its validator had,
    /// the index that the validator had before leads to it no more, and the new index
    /// leads to it.
    pub open spec fn register(self, r: Registration) -> DbState {
        DbState {
            registrations: self.registrations.insert(r.validator_pubkey, r),
            index_to_pubkey: self.forget_index(r.validator_pubkey).insert(
                r.validator_index,
                r.validator_pubkey,
            ),
            ..self
        }
    }

    /// The state after registrations are stored one after the other.
    pub open spec fn register_all(self, rows: Seq<Registration>) -> DbState
        decreases rows.len(),
    {
        if rows.len() == 0 {
            self
        } else {
            self.register_all(rows.drop_last()).register(rows.last())
        }
    }

    /// The state after a validator is withdrawn: its registration is gone, and so is the
    /// way from that registration's index to the validator. A validator that is not
    /// registered changes nothing.
    pub open spec fn deregister(self, key: BlsPublicKey) -> DbState {
        if self.registrations.contains_key(key) {
            DbState {
                registrations: self.registrations.remove(key),
                index_to_pubkey: self.forget_index(key),
                ..self
            }
        } else {
            self
        }
    }

    /// The state after validators are withdrawn one after the other.
    pub open spec fn deregister_all(self, rows: Seq<Deregistration>) -> DbState
        decreases rows.len(),
    {
        if rows.len() == 0 {
            self
        } else {
            self.deregister_all(rows.drop_last()).deregister(rows.last().validator_pubkey)
        }
    }

    /// The state after an operator is stored: it replaces what its signer had.
    pub open spec fn register_operator(self, operator: OperatorView) -> DbState {
        DbState { operators: self.operators.insert(operator.signer, operator), ..self }
    }

    /// The state after operators are stored one after the other.
    pub open spec fn register_operators(self, operators: Seq<OperatorView>) -> DbState
        decreases operators.len(),
    {
        if operators.len() == 0 {
            self
        } else {
            self.register_operators(operators.drop_last()).register_operator(operators.last())
        }
    }

    /// The state with another high-water mark.
    pub open spec fn with_sync_state(self, state: SyncStateUpdate) -> DbState {
        DbState { sync_state: state, ..self }
    }

    /// The registrations of those of `keys` that are registered, in the order of `keys`.
    pub open spec fn registrations_by_pubkey(self, keys: Seq<BlsPublicKey>) -> Seq<Registration>
        decreases keys.len(),
    {
        if keys.len() == 0 {
            Seq::empty()
        } else {
            let before = self.registrations_by_pubkey(keys.drop_last());
            if self.registrations.contains_key(keys.last()) {
                before.push(self.registrations[keys.last()])
            } else {
                before
            }
        }
    }

    /// The entry that discovery returns for a validator: its registration joined with the
    /// endpoint of its operator. There is none where the validator is not registered or
    /// its operator is not known.
    pub open spec fn entry_of(self, key: BlsPublicKey) -> Option<RegistryEntryView> {
        if self.registrations.contains_key(key) && self.operators.contains_key(
            self.registrations[key].operator,
        ) {
            let r = self.registrations[key];
            Some(
                RegistryEntryView {
                    validator_pubkey: r.validator_pubkey,
                    operator: r.operator,
                    gas_limit: r.gas_limit,
                    rpc_endpoint: self.operators[r.operator].rpc_endpoint,
                },
            )
        } else {
            None
        }
    }

    /// The entries of those of `keys` that have one, in the order of `keys`.
    pub open spec fn entries_by_pubkey(self, keys: Seq<BlsPublicKey>) -> Seq<RegistryEntryView>
        decreases keys.len(),
    {
        if keys.len() == 0 {
            Seq::empty()
        } else {
            let before = self.entries_by_pubkey(keys.drop_last());
            match self.entry_of(keys.last()) {
                Some(entry) => before.push(entry),
                None => before,
            }
        }
    }

    /// The entry that discovery returns for a beacon-chain index: that of the validator
    /// that the index leads to.
    pub open spec fn entry_of_index(self, index: u64) -> Option<RegistryEntryView> {
        if self.index_to_pubkey.contains_key(index) {
            self.entry_of(self.index_to_pubkey[index])
        } else {
            None
        }
    }

    /// The entries of those of `indices` that have one, in the order of `indices`.
    pub open spec fn entries_by_index(self, indices: Seq<u64>) -> Seq<RegistryEntryView>
        decreases indices.len(),
    {
        if indices.len() == 0 {
            Seq::empty()
        } else {
            let before = self.entries_by_index(indices.drop_last());
            match self.entry_of_index(indices.last()) {
                Some(entry) => before.push(entry),
                None => before,
            }
        }
    }

    /// The operators of those of `signers` that are known, in the order of `signers`.
    pub open spec fn operators_by_signer(self, signers: Seq<Address>) -> Seq<OperatorView>
        decreases signers.len(),
    {
        if signers.len() == 0 {
            Seq::empty()
        } else {
            let before = self.operators_by_signer(signers.drop_last());
            if self.operators.contains_key(signers.last()) {
                before.push(self.operators[signers.last()])
            } else {
                before
            }
        }
    }
}

/// A key order after `key` is stored: a key that is there keeps its place, a new key
/// goes to the end.
pub open spec fn order_with<K>(order: Seq<K>, key: K) -> Seq<K> {
    if order.contains(key) {
        order
    } else {
        order.push(key)
    }
}

/// A key order after keys are stored one after the other.
pub open spec fn order_with_all<K>(order: Seq<K>, keys: Seq<K>) -> Seq<K>
    decreases keys.len(),
{
    if keys.len() == 0 {
        order
    } else {
        order_with(order_with_all(order, keys.drop_last()), keys.last())
    }
}

/// A key order after `key` is taken out: the other keys keep their order.
pub open spec fn order_without<K>(order: Seq<K>, key: K) -> Seq<K> {
    if order.contains(key) {
        order.remove(order.index_of(key))
    } else {
        order
    }
}

/// The validators of registrations, in the order of the registrations.
pub open spec fn registered_keys(rows: Seq<Registration>) -> Seq<BlsPublicKey> {
    Seq::new(rows.len(), |i: int| rows[i].validator_pubkey)
}

/// The signers of operators, in the order of the operators.
pub open spec fn operator_signers(operators: Seq<OperatorView>) -> Seq<Address> {
    Seq::new(operators.len(), |i: int| operators[i].signer)
}

/// The order of the registered validators after validators are withdrawn one after the
/// other.
pub open spec fn order_after_deregistrations(
    order: Seq<BlsPublicKey>,
    rows: Seq<Deregistration>,
) -> Seq<BlsPublicKey>
    decreases rows.len(),
{
    if rows.len() == 0 {
        order
    } else {
        order_without(
            order_after_deregistrations(order, rows.drop_last()),
            rows.last().validator_pubkey,
        )
    }
}

/// Whether one of the registrations is for validator `k`.
pub open spec fn registers(rows: Seq<Registration>, k: BlsPublicKey) -> bool {
    exists|i: int| 0 <= i < rows.len() && (#[trigger] rows[i]).validator_pubkey == k
}

/// Whether one of the withdrawals is for validator `k`.
pub open spec fn withdraws(rows: Seq<Deregistration>, k: BlsPublicKey) -> bool {
    exists|i: int| 0 <= i < rows.len() && (#[trigger] rows[i]).validator_pubkey == k
}

/// Storing a registration keeps a consistent state consistent: the index that its
/// validator had before is forgotten, so every index still leads to a validator that is
/// registered with it.
pub proof fn lemma_register_consistent(state: DbState, r: Registration)
    requires
        state.consistent(),
    ensures
        state.register(r).consistent(),
{
    let out = state.register(r);
    let cleared = state.forget_index(r.validator_pubkey);
    assert forall|i: u64| out.index_to_pubkey.contains_key(i) implies out.registrations.contains_key(
        #[trigger] out.index_to_pubkey[i],
    ) && out.registrations[out.index_to_pubkey[i]].validator_index == i by {
        if i != r.validator_index {
            assert(cleared.contains_key(i));
            assert(state.index_to_pubkey.contains_key(i));
            let k = state.index_to_pubkey[i];
            assert(cleared[i] == k);
            assert(state.registrations.contains_key(k) && state.registrations[k].validator_index
                == i);
            assert(k != r.validator_pubkey);
        }
    }
}

/// Withdrawing a validator keeps a consistent state consistent.
pub proof fn lemma_deregister_consistent(state: DbState, key: BlsPublicKey)
    requires
        state.consistent(),
    ensures
        state.deregister(key).consistent(),
{
    let out = state.deregister(key);
    if state.registrations.contains_key(key) {
        assert forall|i: u64| out.index_to_pubkey.contains_key(i)
            implies out.registrations.contains_key(#[trigger] out.index_to_pubkey[i])
            && out.registrations[out.index_to_pubkey[i]].validator_index == i by {
            assert(state.index_to_pubkey.contains_key(i));
            let k = state.index_to_pubkey[i];
            assert(out.index_to_pubkey[i] == k);
            assert(state.registrations.contains_key(k) && state.registrations[k].validator_index
                == i);
            assert(k != key);
        }
    }
}

/// Storing registrations touches neither the operators nor the sync state, and keeps a
/// consistent state consistent.
pub proof fn lemma_register_all_frame(state: DbState, rows: Seq<Registration>)
    ensures
        state.register_all(rows).operators == state.operators,
        state.register_all(rows).sync_state == state.sync_state,
        state.consistent() ==> state.register_all(rows).consistent(),
    decreases rows.len(),
{
    if rows.len() > 0 {
        lemma_register_all_frame(state, rows.drop_last());
        if state.consistent() {
            lemma_register_consistent(state.register_all(rows.drop_last()), rows.last());
        }
    }
}

/// A validator that none of the stored registrations is for keeps what it had.
pub proof fn lemma_register_all_other(state: DbState, rows: Seq<Registration>, k: BlsPublicKey)
    requires
        !registers(rows, k),
    ensures
        state.register_all(rows).registrations.contains_key(k) == state.registrations.contains_key(
            k,
        ),
        state.registrations.contains_key(k) ==> state.register_all(rows).registrations[k]
            == state.registrations[k],
    decreases rows.len(),
{
    if rows.len() > 0 {
        let front = rows.drop_last();
        if registers(front, k) {
            let i = choose|i: int| 0 <= i < front.len() && (#[trigger] front[i]).validator_pubkey == k;
            assert(rows[i] == front[i]);
        }
        assert(rows[rows.len() - 1].validator_pubkey != k);
        lemma_register_all_other(state, front, k);
    }
}

/// After registrations are stored, the validator of each of them is registered, with the
/// registration itself where no later one is for the same validator.
pub proof fn lemma_register_all_stored(state: DbState, rows: Seq<Registration>, i: int)
    requires
        0 <= i < rows.len(),
    ensures
        state.register_all(rows).registrations.contains_key(rows[i].validator_pubkey),
        (forall|j: int|
            i < j < rows.len() ==> (#[trigger] rows[j]).validator_pubkey
                != rows[i].validator_pubkey) ==> state.register_all(
            rows,
        ).registrations[rows[i].validator_pubkey] == rows[i],
    decreases rows.len(),
{
    let front = rows.drop_last();
    if i < front.len() {
        assert(front[i] == rows[i]);
        lemma_register_all_stored(state, front, i);
        if forall|j: int|
            i < j < rows.len() ==> (#[trigger] rows[j]).validator_pubkey
                != rows[i].validator_pubkey {
            assert(rows[rows.len() - 1].validator_pubkey != rows[i].validator_pubkey);
            assert forall|j: int| i < j < front.len() implies (#[trigger] front[j]).validator_pubkey
                != front[i].validator_pubkey by {
                assert(front[j] == rows[j]);
            }
        }
    }
}

/// Where every stored registration carries the index that `index_of` holds for its
/// validator, every validator that one of them is for is registered afterwards with
/// that index.
pub proof fn lemma_register_all_indexed(
    state: DbState,
    rows: Seq<Registration>,
    index_of: Map<BlsPublicKey, u64>,
    k: BlsPublicKey,
)
    requires
        forall|i: int|
            0 <= i < rows.len() ==> (#[trigger] rows[i]).validator_index
                == index_of[rows[i].validator_pubkey],
        registers(rows, k),
    ensures
        state.register_all(rows).registrations.contains_key(k),
        state.register_all(rows).registrations[k].validator_pubkey == k,
        state.register_all(rows).registrations[k].validator_index == index_of[k],
    decreases rows.len(),
{
    let front = rows.drop_last();
    let last = rows[rows.len() - 1];
    if last.validator_pubkey != k {
        let i = choose|i: int| 0 <= i < rows.len() && (#[trigger] rows[i]).validator_pubkey == k;
        assert(front[i] == rows[i]);
        assert forall|j: int| 0 <= j < front.len() implies (#[trigger] front[j]).validator_index
            == index_of[front[j].validator_pubkey] by {
            assert(front[j] == rows[j]);
        }
        lemma_register_all_indexed(state, front, index_of, k);
    }
}

/// Whether one of the operators has signer `a`.
pub open spec fn signs(operators: Seq<OperatorView>, a: Address) -> bool {
    exists|i: int| 0 <= i < operators.len() && (#[trigger] operators[i]).signer == a
}

/// Storing operators touches neither the registrations nor the sync state, and keeps a
/// consistent state consistent.
pub proof fn lemma_register_operators_frame(state: DbState, operators: Seq<OperatorView>)
    ensures
        state.register_operators(operators).registrations == state.registrations,
        state.register_operators(operators).index_to_pubkey == state.index_to_pubkey,
        state.register_operators(operators).sync_state == state.sync_state,
        state.consistent() && (forall|i: int|
            0 <= i < operators.len() ==> (#[trigger] operators[i]).wf())
            ==> state.register_operators(operators).consistent(),
    decreases operators.len(),
{
    if operators.len() > 0 {
        let front = operators.drop_last();
        lemma_register_operators_frame(state, front);
        if state.consistent() && (forall|i: int|
            0 <= i < operators.len() ==> (#[trigger] operators[i]).wf()) {
            assert forall|i: int| 0 <= i < front.len() implies (#[trigger] front[i]).wf() by {
                assert(front[i] == operators[i]);
            }
            assert(operators[operators.len() - 1].wf());
        }
    }
}

/// What a consistent state returns for signers are operators that have an amount for each
/// of their collateral tokens, each under the signer it was asked for.
pub proof fn lemma_stored_operators_wf(state: DbState, signers: Seq<Address>)
    requires
        state.consistent(),
    ensures
        forall|i: int|
            0 <= i < state.operators_by_signer(signers).len() ==> {
                let operator = #[trigger] state.operators_by_signer(signers)[i];
                &&& operator.wf()
                &&& signers.contains(operator.signer)
                &&& state.operators.contains_key(operator.signer)
                &&& state.operators[operator.signer] == operator
            },
    decreases signers.len(),
{
    if signers.len() > 0 {
        let front = signers.drop_last();
        lemma_stored_operators_wf(state, front);
        let all = state.operators_by_signer(signers);
        assert forall|i: int| 0 <= i < all.len() implies {
            let operator = #[trigger] all[i];
            &&& operator.wf()
            &&& signers.contains(operator.signer)
            &&& state.operators.contains_key(operator.signer)
            &&& state.operators[operator.signer] == operator
        } by {
            if i < state.operators_by_signer(front).len() {
                let operator = state.operators_by_signer(front)[i];
                assert(all[i] == operator);
                let j = front.index_of(operator.signer);
                assert(0 <= j < front.len() && front[j] == operator.signer);
                assert(signers[j] == operator.signer);
            } else {
                assert(all[i] == state.operators[signers.last()]);
                assert(signers[signers.len() - 1] == signers.last());
            }
        }
    }
}

/// A signer that none of the stored operators has keeps what it had.
pub proof fn lemma_register_operators_other(
    state: DbState,
    operators: Seq<OperatorView>,
    a: Address,
)
    requires
        !signs(operators, a),
    ensures
        state.register_operators(operators).operators.contains_key(a)
            == state.operators.contains_key(a),
        state.operators.contains_key(a) ==> state.register_operators(operators).operators[a]
            == state.operators[a],
    decreases operators.len(),
{
    if operators.len() > 0 {
        let front = operators.drop_last();
        if signs(front, a) {
            let i = choose|i: int| 0 <= i < front.len() && (#[trigger] front[i]).signer == a;
            assert(operators[i] == front[i]);
        }
        assert(operators[operators.len() - 1].signer != a);
        lemma_register_operators_other(state, front, a);
    }
}

/// After operators are stored, the signer of each of them is known, with the operator
/// itself where no later one has the same signer.
pub proof fn lemma_register_operators_stored(state: DbState, operators: Seq<OperatorView>, i: int)
    requires
        0 <= i < operators.len(),
    ensures
        state.register_operators(operators).operators.contains_key(operators[i].signer),
        (forall|j: int|
            i < j < operators.len() ==> (#[trigger] operators[j]).signer != operators[i].signer)
            ==> state.register_operators(operators).operators[operators[i].signer] == operators[i],
    decreases operators.len(),
{
    let front = operators.drop_last();
    if i < front.len() {
        assert(front[i] == operators[i]);
        lemma_register_operators_stored(state, front, i);
        if forall|j: int|
            i < j < operators.len() ==> (#[trigger] operators[j]).signer != operators[i].signer {
            assert(operators[operators.len() - 1].signer != operators[i].signer);
            assert forall|j: int| i < j < front.len() implies (#[trigger] front[j]).signer
                != front[i].signer by {
                assert(front[j] == operators[j]);
            }
        }
    }
}

/// Withdrawing validators touches neither the operators nor the sync state, registers
/// nobody and changes no registration that stays; it keeps a consistent state consistent.
pub proof fn lemma_deregister_all_frame(state: DbState, rows: Seq<Deregistration>)
    ensures
        state.deregister_all(rows).operators == state.operators,
        state.deregister_all(rows).sync_state == state.sync_state,
        forall|k: BlsPublicKey| #[trigger]
            state.deregister_all(rows).registrations.contains_key(k)
                ==> state.registrations.contains_key(k) && state.deregister_all(
                rows,
            ).registrations[k] == state.registrations[k],
        state.consistent() ==> state.deregister_all(rows).consistent(),
    decreases rows.len(),
{
    if rows.len() > 0 {
        let front = rows.drop_last();
        lemma_deregister_all_frame(state, front);
        let mid = state.deregister_all(front);
        let out = state.deregister_all(rows);
        assert(out == mid.deregister(rows.last().validator_pubkey));
        assert forall|k: BlsPublicKey| #[trigger] out.registrations.contains_key(k)
            implies state.registrations.contains_key(k) && out.registrations[k]
            == state.registrations[k] by {
            assert(mid.registrations.contains_key(k));
        }
        if state.consistent() {
            lemma_deregister_consistent(mid, rows.last().validator_pubkey);
        }
    }
}

/// A validator that none of the withdrawals is for keeps what it had.
pub proof fn lemma_deregister_all_other(state: DbState, rows: Seq<Deregistration>, k: BlsPublicKey)
    requires
        !withdraws(rows, k),
    ensures
        state.deregister_all(rows).registrations.contains_key(k)
            == state.registrations.contains_key(k),
        state.registrations.contains_key(k) ==> state.deregister_all(rows).registrations[k]
            == state.registrations[k],
    decreases rows.len(),
{
    if rows.len() > 0 {
        let front = rows.drop_last();
        if withdraws(front, k) {
            let i = choose|i: int| 0 <= i < front.len() && (#[trigger] front[i]).validator_pubkey == k;
            assert(rows[i] == front[i]);
        }
        assert(rows[rows.len() - 1].validator_pubkey != k);
        lemma_deregister_all_other(state, front, k);
    }
}

/// After validators are withdrawn, none of them is registered.
pub proof fn lemma_deregister_all_gone(state: DbState, rows: Seq<Deregistration>, i: int)
    requires
        0 <= i < rows.len(),
    ensures
        !state.deregister_all(rows).registrations.contains_key(rows[i].validator_pubkey),
    decreases rows.len(),
{
    let front = rows.drop_last();
    if i < front.len() {
        assert(front[i] == rows[i]);
        lemma_deregister_all_gone(state, front, i);
    }
}

/// Withdrawing validators of which none is registered leaves the state as it was.
pub proof fn lemma_deregister_unknown(state: DbState, rows: Seq<Deregistration>)
    requires
        forall|i: int|
            0 <= i < rows.len() ==> !state.registrations.contains_key(
                (#[trigger] rows[i]).validator_pubkey,
            ),
    ensures
        state.deregister_all(rows) == state,
    decreases rows.len(),
{
    if rows.len() > 0 {
        let front = rows.drop_last();
        assert forall|i: int| 0 <= i < front.len() implies !state.registrations.contains_key(
            (#[trigger] front[i]).validator_pubkey,
        ) by {
            assert(front[i] == rows[i]);
        }
        lemma_deregister_unknown(state, front);
        assert(!state.registrations.contains_key(rows[rows.len() - 1].validator_pubkey));
    }
}

/// Discovery by key returns only validators that are registered, each with the operator
/// of its registration, and never one whose operator is not stored.
pub proof fn lemma_entries_have_stored_operator(state: DbState, keys: Seq<BlsPublicKey>)
    requires
        state.consistent(),
    ensures
        forall|i: int|
            0 <= i < state.entries_by_pubkey(keys).len() ==> {
                let entry = #[trigger] state.entries_by_pubkey(keys)[i];
                &&& keys.contains(entry.validator_pubkey)
                &&& state.registrations.contains_key(entry.validator_pubkey)
                &&& state.registrations[entry.validator_pubkey].operator == entry.operator
                &&& state.registrations[entry.validator_pubkey].gas_limit == entry.gas_limit
                &&& state.operators.contains_key(entry.operator)
                &&& state.operators[entry.operator].rpc_endpoint == entry.rpc_endpoint
            },
    decreases keys.len(),
{
    if keys.len() > 0 {
        let front = keys.drop_last();
        lemma_entries_have_stored_operator(state, front);
        let all = state.entries_by_pubkey(keys);
        assert forall|i: int| 0 <= i < all.len() implies {
            let entry = #[trigger] all[i];
            &&& keys.contains(entry.validator_pubkey)
            &&& state.registrations.contains_key(entry.validator_pubkey)
            &&& state.registrations[entry.validator_pubkey].operator == entry.operator
            &&& state.registrations[entry.validator_pubkey].gas_limit == entry.gas_limit
            &&& state.operators.contains_key(entry.operator)
            &&& state.operators[entry.operator].rpc_endpoint == entry.rpc_endpoint
        } by {
            if i < state.entries_by_pubkey(front).len() {
                let entry = state.entries_by_pubkey(front)[i];
                assert(all[i] == entry);
                let j = front.index_of(entry.validator_pubkey);
                assert(0 <= j < front.len() && front[j] == entry.validator_pubkey);
                assert(keys[j] == entry.validator_pubkey);
            } else {
                assert(state.entry_of(keys.last()) == Some(all[i]));
                assert(keys[keys.len() - 1] == keys.last());
            }
        }
    }
}

/// Discovery by index, too, never returns a validator whose operator is not stored.
pub proof fn lemma_index_entries_have_stored_operator(state: DbState, indices: Seq<u64>)
    ensures
        forall|i: int|
            0 <= i < state.entries_by_index(indices).len() ==> state.operators.contains_key(
                (#[trigger] state.entries_by_index(indices)[i]).operator,
            ),
    decreases indices.len(),
{
    if indices.len() > 0 {
        let front = indices.drop_last();
        lemma_index_entries_have_stored_operator(state, front);
        let all = state.entries_by_index(indices);
        assert forall|i: int| 0 <= i < all.len() implies state.operators.contains_key(
            (#[trigger] all[i]).operator,
        ) by {
            if i < state.entries_by_index(front).len() {
                assert(all[i] == state.entries_by_index(front)[i]);
            } else {
                assert(state.entry_of_index(indices.last()) == Some(all[i]));
            }
        }
    }
}

/// Discovery by index returns only validators that are registered with one of the
/// indices asked for: an index that a validator had in an earlier registration, or before
/// it was withdrawn, gives nothing.
pub proof fn lemma_index_entries_match_index(state: DbState, indices: Seq<u64>)
    requires
        state.consistent(),
    ensures
        forall|i: int|
            0 <= i < state.entries_by_index(indices).len() ==> {
                let entry = #[trigger] state.entries_by_index(indices)[i];
                &&& state.registrations.contains_key(entry.validator_pubkey)
                &&& indices.contains(state.registrations[entry.validator_pubkey].validator_index)
                &&& state.entry_of(entry.validator_pubkey) == Some(entry)
            },
    decreases indices.len(),
{
    if indices.len() > 0 {
        let front = indices.drop_last();
        lemma_index_entries_match_index(state, front);
        let all = state.entries_by_index(indices);
        assert forall|i: int| 0 <= i < all.len() implies {
            let entry = #[trigger] all[i];
            &&& state.registrations.contains_key(entry.validator_pubkey)
            &&& indices.contains(state.registrations[entry.validator_pubkey].validator_index)
            &&& state.entry_of(entry.validator_pubkey) == Some(entry)
        } by {
            if i < state.entries_by_index(front).len() {
                let entry = state.entries_by_index(front)[i];
                assert(all[i] == entry);
                let index = state.registrations[entry.validator_pubkey].validator_index;
                let j = front.index_of(index);
                assert(0 <= j < front.len() && front[j] == index);
                assert(indices[j] == index);
            } else {
                let index = indices.last();
                let key = state.index_to_pubkey[index];
                assert(state.entry_of_index(index) == Some(all[i]));
                assert(state.entry_of(key) == Some(all[i]));
                assert(state.registrations[key].validator_pubkey == key);
                assert(indices[indices.len() - 1] == index);
            }
        }
    }
}

/// The views of a run of registry entries.
pub open spec fn entry_views(entries: Seq<RegistryEntry>) -> Seq<RegistryEntryView> {
    entries.map_values(|e: RegistryEntry| e@)
}

/// The views of a run of operators.
pub open spec fn operator_views(operators: Seq<Operator>) -> Seq<OperatorView> {
    operators.map_values(|o: Operator| o@)
}

/// Takes the way from `index` to `key` out of the index map, where the index leads to
/// that key.
fn forget(cache: &mut HashMap<u64, BlsPublicKey>, index: u64, key: &BlsPublicKey)
    ensures
        final(cache)@ == if old(cache)@.contains_key(index) && old(cache)@[index] == *key {
            old(cache)@.remove(index)
        } else {
            old(cache)@
        },
{
    let leads_here = match cache.get(&index) {
        Some(owner) => *owner == *key,
        None => false,
    };
    if leads_here {
        cache.remove(&index);
    }
}

/// The in-memory store: registrations by validator key, operators by signer, the way from
/// beacon-chain index to validator key, and the sync state.
pub struct InMemoryDb {
    validator_registrations: KeyedStore<48, Registration>,
    index_to_pubkey: HashMap<u64, BlsPublicKey>,
    operator_registrations: KeyedStore<20, Operator>,
    sync_state: SyncStateUpdate,
}

impl View for InMemoryDb {
    type V = DbState;

    closed spec fn view(&self) -> DbState {
        DbState {
            registrations: self.validator_registrations.map(),
            index_to_pubkey: self.index_to_pubkey@,
            operators: Map::new(
                |a: Address| self.operator_registrations.map().contains_key(a),
                |a: Address| self.operator_registrations.map()[a]@,
            ),
            sync_state: self.sync_state,
        }
    }
}

impl InMemoryDb {
    /// The registered validators, in the order in which they first came in.
    pub closed spec fn registration_order(&self) -> Seq<BlsPublicKey> {
        self.validator_registrations.keys()
    }

    /// The signers of the known operators, in the order in which they first came in.
    pub closed spec fn operator_order(&self) -> Seq<Address> {
        self.operator_registrations.keys()
    }

    /// The store's invariant: no key is held twice, and what is held under a key belongs
    /// to that key.
    pub closed spec fn wf(&self) -> bool {
        &&& self.validator_registrations.wf()
        &&& self.operator_registrations.wf()
        &&& self@.consistent()
    }

    /// What the invariant gives: the state is consistent, and the two orders list the
    /// keys of the two maps, each once.
    pub proof fn lemma_wf(&self)
        requires
            self.wf(),
        ensures
            self@.consistent(),
            self.registration_order().no_duplicates(),
            self.operator_order().no_duplicates(),
            forall|k: BlsPublicKey|
                self@.registrations.contains_key(k) <==> self.registration_order().contains(k),
            forall|a: Address| self@.operators.contains_key(a) <==> self.operator_order().contains(a),
    {
        self.validator_registrations.lemma_wf();
        self.operator_registrations.lemma_wf();
    }

    /// An empty store, with the sync state at zero.
    pub fn new() -> (out: InMemoryDb)
        ensures
            out.wf(),
            out@.registrations == Map::<BlsPublicKey, Registration>::empty(),
            out@.index_to_pubkey == Map::<u64, BlsPublicKey>::empty(),
            out@.operators == Map::<Address, OperatorView>::empty(),
            out@.sync_state == (SyncStateUpdate { block_number: 0, epoch: 0, slot: 0 }),
            out.registration_order() == Seq::<BlsPublicKey>::empty(),
            out.operator_order() == Seq::<Address>::empty(),
    {
        let out = InMemoryDb {
            validator_registrations: KeyedStore::new(),
            index_to_pubkey: HashMap::new(),
            operator_registrations: KeyedStore::new(),
            sync_state: SyncStateUpdate { block_number: 0, epoch: 0, slot: 0 },
        };
        assert(out@.operators =~= Map::<Address, OperatorView>::empty());
        out
    }

    /// Stores an operator under its signer, in place of what the signer had. A signer
    /// that is known keeps its place in the order of the operators, a new one goes to the
    /// end.
    pub fn register_operator(&mut self, operator: Operator) -> (res: DbResult<()>)
        requires
            old(self).wf(),
            operator.wf(),
        ensures
            res is Ok,
            final(self).wf(),
            final(self)@ == old(self)@.register_operator(operator@),
            final(self).registration_order() == old(self).registration_order(),
            final(self).operator_order() == order_with(old(self).operator_order(), operator.signer),
    {
        let signer = operator.signer;
        self.operator_registrations.insert(signer, operator);
        proof {
            assert(self@.registrations == old(self)@.registrations);
            assert(self@.operators =~= old(self)@.operators.insert(signer, operator@));
        }
        Ok(())
    }

    /// Stores registrations one after the other, each under its validator's key and in
    /// place of what that validator had. The index that a validator had in the
    /// registration that is replaced leads to it no more. A validator that is registered
    /// keeps its place in the order of the validators, a new one goes to the end.
    pub fn register_validators(&mut self, registrations: &[Registration]) -> (res: DbResult<()>)
        requires
            old(self).wf(),
        ensures
            res is Ok,
            final(self).wf(),
            final(self)@ == old(self)@.register_all(registrations@),
            final(self).registration_order() == order_with_all(
                old(self).registration_order(),
                registered_keys(registrations@),
            ),
            final(self).operator_order() == old(self).operator_order(),
    {
        let mut i: usize = 0;
        while i < registrations.len()
            invariant
                i <= registrations@.len(),
                self.wf(),
                self@ == old(self)@.register_all(registrations@.take(i as int)),
                self.registration_order() == order_with_all(
                    old(self).registration_order(),
                    registered_keys(registrations@.take(i as int)),
                ),
                self.operator_order() == old(self).operator_order(),
            decreases registrations@.len() - i,
        {
            let r = registrations[i];
            proof {
                assert(registrations@.take(i + 1).drop_last() =~= registrations@.take(i as int));
                assert(registrations@.take(i + 1).last() == r);
                assert(registered_keys(registrations@.take(i + 1)).drop_last() =~= registered_keys(
                    registrations@.take(i as int),
                ));
                assert(registered_keys(registrations@.take(i + 1)).last() == r.validator_pubkey);
                self.validator_registrations.lemma_wf();
            }
            let ghost before = self@;
            let replaced = match self.validator_registrations.get(&r.validator_pubkey) {
                Some(previous) => Some(previous.validator_index),
                None => None,
            };
            match replaced {
                Some(index) => {
                    forget(&mut self.index_to_pubkey, index, &r.validator_pubkey);
                },
                None => {},
            }
            self.validator_registrations.insert(r.validator_pubkey, r);
            self.index_to_pubkey.insert(r.validator_index, r.validator_pubkey);
            proof {
                assert(self@.operators == before.operators);
                assert(self@.registrations == before.registrations.insert(r.validator_pubkey, r));
                assert(self@ == before.register(r));
                lemma_register_consistent(before, r);
            }
            i = i + 1;
        }
        assert(registrations@.take(registrations@.len() as int) =~= registrations@);
        Ok(())
    }

    /// Withdraws validators one after the other. A validator that is not registered is
    /// passed over.
    pub fn deregister_validators(&mut self, deregistrations: &[Deregistration]) -> (res: DbResult<
        (),
    >)
        requires
            old(self).wf(),
        ensures
            res is Ok,
            final(self).wf(),
            final(self)@ == old(self)@.deregister_all(deregistrations@),
            final(self).registration_order() == order_after_deregistrations(
                old(self).registration_order(),
                deregistrations@,
            ),
            final(self).operator_order() == old(self).operator_order(),
    {
        let mut i: usize = 0;
        while i < deregistrations.len()
            invariant
                i <= deregistrations@.len(),
                self.wf(),
                self@ == old(self)@.deregister_all(deregistrations@.take(i as int)),
                self.registration_order() == order_after_deregistrations(
                    old(self).registration_order(),
                    deregistrations@.take(i as int),
                ),
                self.operator_order() == old(self).operator_order(),
            decreases deregistrations@.len() - i,
        {
            let key = deregistrations[i].validator_pubkey;
            proof {
                assert(deregistrations@.take(i + 1).drop_last() =~= deregistrations@.take(i as int));
                assert(deregistrations@.take(i + 1).last() == deregistrations@[i as int]);
                self.validator_registrations.lemma_wf();
            }
            let ghost before = self@;
            match self.validator_registrations.remove(&key) {
                Some(removed) => {
                    forget(&mut self.index_to_pubkey, removed.validator_index, &key);
                    proof {
                        assert(self@.registrations == before.registrations.remove(key));
                    }
                },
                None => {
                    proof {
                        assert(self@.registrations == before.registrations);
                    }
                },
            }
            proof {
                assert(self@.operators == before.operators);
                assert(self@.sync_state == before.sync_state);
                assert(self@ == before.deregister(key));
                lemma_deregister_consistent(before, key);
            }
            i = i + 1;
        }
        assert(deregistrations@.take(deregistrations@.len() as int) =~= deregistrations@);
        Ok(())
    }

    /// Every registration, in the order in which the validators first came in.
    pub fn list_registrations(&self) -> (res: DbResult<Vec<Registration>>)
        requires
            self.wf(),
        ensures
            res matches Ok(out) && out@ == self@.registrations_by_pubkey(self.registration_order()),
    {
        let mut out: Vec<Registration> = Vec::new();
        let n = self.validator_registrations.len();
        let mut i: usize = 0;
        while i < n
            invariant
                self.wf(),
                n == self.registration_order().len(),
                i <= n,
                out@ == self@.registrations_by_pubkey(self.registration_order().take(i as int)),
            decreases n - i,
        {
            proof {
                let order = self.registration_order();
                assert(order.take(i + 1).drop_last() =~= order.take(i as int));
                assert(order.take(i + 1).last() == order[i as int]);
                self.validator_registrations.lemma_wf();
            }
            out.push(*self.validator_registrations.value_at(i));
            i = i + 1;
        }
        assert(self.registration_order().take(n as int) =~= self.registration_order());
        Ok(out)
    }

    /// The registrations of those of `pubkeys` that are registered, in the order of
    /// `pubkeys`.
    pub fn get_registrations_by_pubkey(&self, pubkeys: &[BlsPublicKey]) -> (res: DbResult<
        Vec<Registration>,
    >)
        requires
            self.wf(),
        ensures
            res matches Ok(out) && out@ == self@.registrations_by_pubkey(pubkeys@),
    {
        let mut out: Vec<Registration> = Vec::new();
        let mut i: usize = 0;
        while i < pubkeys.len()
            invariant
                self.wf(),
                i <= pubkeys@.len(),
                out@ == self@.registrations_by_pubkey(pubkeys@.take(i as int)),
            decreases pubkeys@.len() - i,
        {
            proof {
                assert(pubkeys@.take(i + 1).drop_last() =~= pubkeys@.take(i as int));
                assert(pubkeys@.take(i + 1).last() == pubkeys@[i as int]);
            }
            match self.validator_registrations.get(&pubkeys[i]) {
                Some(r) => {
                    out.push(*r);
                },
                None => {},
            }
            i = i + 1;
        }
        assert(pubkeys@.take(pubkeys@.len() as int) =~= pubkeys@);
        Ok(out)
    }

    /// The entry of a validator: its registration joined with the endpoint of its
    /// operator, where both are stored.
    fn entry_of(&self, key: &BlsPublicKey) -> (out: Option<RegistryEntry>)
        requires
            self.wf(),
        ensures
            match out {
                Some(entry) => self@.entry_of(*key) == Some(entry@),
                None => self@.entry_of(*key) is None,
            },
    {
        match self.validator_registrations.get(key) {
            Some(r) => match self.operator_registrations.get(&r.operator) {
                Some(operator) => Some(
                    RegistryEntry {
                        validator_pubkey: r.validator_pubkey,
                        operator: r.operator,
                        gas_limit: r.gas_limit,
                        rpc_endpoint: operator.rpc_endpoint.clone(),
                    },
                ),
                None => None,
            },
            None => None,
        }
    }

    /// The entries of all registered validators whose operator is known, in the order in
    /// which the validators first came in.
    pub fn list_validators(&self) -> (res: DbResult<Vec<RegistryEntry>>)
        requires
            self.wf(),
        ensures
            res matches Ok(out) && entry_views(out@) == self@.entries_by_pubkey(
                self.registration_order(),
            ),
    {
        let mut out: Vec<RegistryEntry> = Vec::new();
        let n = self.validator_registrations.len();
        let mut i: usize = 0;
        while i < n
            invariant
                self.wf(),
                n == self.registration_order().len(),
                i <= n,
                entry_views(out@) == self@.entries_by_pubkey(
                    self.registration_order().take(i as int),
                ),
            decreases n - i,
        {
            proof {
                let order = self.registration_order();
                assert(order.take(i + 1).drop_last() =~= order.take(i as int));
                assert(order.take(i + 1).last() == order[i as int]);
            }
            let key = self.validator_registrations.key_at(i);
            let ghost before = out@;
            match self.entry_of(&key) {
                Some(entry) => {
                    out.push(entry);
                    assert(entry_views(out@) =~= entry_views(before).push(entry@));
                },
                None => {},
            }
            i = i + 1;
        }
        assert(self.registration_order().take(n as int) =~= self.registration_order());
        Ok(out)
    }

    /// The entries of those of `pubkeys` that are registered with a known operator, in
    /// the order of `pubkeys`.
    pub fn get_validators_by_pubkey(&self, pubkeys: &[BlsPublicKey]) -> (res: DbResult<
        Vec<RegistryEntry>,
    >)
        requires
            self.wf(),
        ensures
            res matches Ok(out) && entry_views(out@) == self@.entries_by_pubkey(pubkeys@),
    {
        let mut out: Vec<RegistryEntry> = Vec::new();
        let mut i: usize = 0;
        while i < pubkeys.len()
            invariant
                self.wf(),
                i <= pubkeys@.len(),
                entry_views(out@) == self@.entries_by_pubkey(pubkeys@.take(i as int)),
            decreases pubkeys@.len() - i,
        {
            proof {
                assert(pubkeys@.take(i + 1).drop_last() =~= pubkeys@.take(i as int));
                assert(pubkeys@.take(i + 1).last() == pubkeys@[i as int]);
            }
            let ghost before = out@;
            match self.entry_of(&pubkeys[i]) {
                Some(entry) => {
                    out.push(entry);
                    assert(entry_views(out@) =~= entry_views(before).push(entry@));
                },
                None => {},
            }
            i = i + 1;
        }
        assert(pubkeys@.take(pubkeys@.len() as int) =~= pubkeys@);
        assert(entry_views(out@) == self@.entries_by_pubkey(pubkeys@));
        Ok(out)
    }

    /// The entries of the validators that `indices` lead to, where they are registered
    /// with a known operator, in the order of `indices`. An index leads to a validator
    /// only while the validator is registered with it.
    pub fn get_validators_by_index(&self, indices: Vec<u64>) -> (res: DbResult<Vec<RegistryEntry>>)
        requires
            self.wf(),
        ensures
            res matches Ok(out) && entry_views(out@) == self@.entries_by_index(indices@),
    {
        let mut out: Vec<RegistryEntry> = Vec::new();
        let mut i: usize = 0;
        while i < indices.len()
            invariant
                self.wf(),
                i <= indices@.len(),
                entry_views(out@) == self@.entries_by_index(indices@.take(i as int)),
            decreases indices@.len() - i,
        {
            proof {
                assert(indices@.take(i + 1).drop_last() =~= indices@.take(i as int));
                assert(indices@.take(i + 1).last() == indices@[i as int]);
            }
            let ghost before = out@;
            let found = match self.index_to_pubkey.get(&indices[i]) {
                Some(key) => self.entry_of(key),
                None => None,
            };
            match found {
                Some(entry) => {
                    out.push(entry);
                    assert(entry_views(out@) =~= entry_views(before).push(entry@));
                },
                None => {},
            }
            i = i + 1;
        }
        assert(indices@.take(indices@.len() as int) =~= indices@);
        assert(entry_views(out@) == self@.entries_by_index(indices@));
        Ok(out)
    }

    /// Every operator, in the order in which the signers first came in.
    pub fn list_operators(&self) -> (res: DbResult<Vec<Operator>>)
        requires
            self.wf(),
        ensures
            res matches Ok(out) && operator_views(out@) == self@.operators_by_signer(
                self.operator_order(),
            ),
    {
        let mut out: Vec<Operator> = Vec::new();
        let n = self.operator_registrations.len();
        let mut i: usize = 0;
        while i < n
            invariant
                self.wf(),
                n == self.operator_order().len(),
                i <= n,
                operator_views(out@) == self@.operators_by_signer(
                    self.operator_order().take(i as int),
                ),
            decreases n - i,
        {
            proof {
                let order = self.operator_order();
                assert(order.take(i + 1).drop_last() =~= order.take(i as int));
                assert(order.take(i + 1).last() == order[i as int]);
                self.operator_registrations.lemma_wf();
            }
            let ghost before = out@;
            let operator = self.operator_registrations.value_at(i).clone();
            out.push(operator);
            assert(operator_views(out@) =~= operator_views(before).push(operator@));
            i = i + 1;
        }
        assert(self.operator_order().take(n as int) =~= self.operator_order());
        Ok(out)
    }

    /// The operators of those of `signers` that are known, in the order of `signers`.
    pub fn get_operators_by_signer(&self, signers: &[Address]) -> (res: DbResult<Vec<Operator>>)
        requires
            self.wf(),
        ensures
            res matches Ok(out) && operator_views(out@) == self@.operators_by_signer(signers@),
    {
        let mut out: Vec<Operator> = Vec::new();
        let mut i: usize = 0;
        while i < signers.len()
            invariant
                self.wf(),
                i <= signers@.len(),
                operator_views(out@) == self@.operators_by_signer(signers@.take(i as int)),
            decreases signers@.len() - i,
        {
            proof {
                assert(signers@.take(i + 1).drop_last() =~= signers@.take(i as int));
                assert(signers@.take(i + 1).last() == signers@[i as int]);
            }
            let ghost before = out@;
            match self.operator_registrations.get(&signers[i]) {
                Some(stored) => {
                    let operator = stored.clone();
                    out.push(operator);
                    assert(operator_views(out@) =~= operator_views(before).push(operator@));
                },
                None => {},
            }
            i = i + 1;
        }
        assert(signers@.take(signers@.len() as int) =~= signers@);
        assert(operator_views(out@) == self@.operators_by_signer(signers@));
        Ok(out)
    }

    /// The high-water mark of the sync engine.
    pub fn get_sync_state(&self) -> (res: DbResult<SyncStateUpdate>)
        ensures
            res == Ok::<SyncStateUpdate, crate::db::DbError>(self@.sync_state),
    {
        Ok(self.sync_state)
    }

    /// Sets the high-water mark of the sync engine.
    pub fn update_sync_state(&mut self, state: SyncStateUpdate) -> (res: DbResult<()>)
        ensures
            res is Ok,
            old(self).wf() ==> final(self).wf(),
            final(self)@ == old(self)@.with_sync_state(state),
            final(self).registration_order() == old(self).registration_order(),
            final(self).operator_order() == old(self).operator_order(),
    {
        self.sync_state = state;
        proof {
            assert(self@.registrations == old(self)@.registrations);
            assert(self@.operators == old(self)@.operators);
        }
        Ok(())
    }
}

impl Default for InMemoryDb {
    fn default() -> (out: InMemoryDb)
        ensures
            out.wf(),
            out@.registrations == Map::<BlsPublicKey, Registration>::empty(),
            out@.index_to_pubkey == Map::<u64, BlsPublicKey>::empty(),
            out@.operators == Map::<Address, OperatorView>::empty(),
            out@.sync_state == (SyncStateUpdate { block_number: 0, epoch: 0, slot: 0 }),
            out.registration_order() == Seq::<BlsPublicKey>::empty(),
            out.operator_order() == Seq::<Address>::empty(),
    {
        InMemoryDb::new()
    }
}

/// Mutations that are gathered during a sync and reach the store together with the new
/// sync state, or not at all: a transaction that is dropped leaves the store as it was.
pub struct SyncTransaction {
    pub registrations: Vec<Registration>,
    pub operators: Vec<Operator>,
}

impl SyncTransaction {
    /// The registrations gathered so far.
    pub open spec fn staged_registrations(&self) -> Seq<Registration> {
        self.registrations@
    }

    /// The operators gathered so far.
    pub open spec fn staged_operators(&self) -> Seq<OperatorView> {
        operator_views(self.operators@)
    }

    /// Every operator gathered has an amount for each of its collateral tokens.
    pub open spec fn wf(&self) -> bool {
        forall|i: int| 0 <= i < self.operators@.len() ==> (#[trigger] self.operators@[i]).wf()
    }

    /// Adds registrations to the transaction.
    pub fn register_validators(&mut self, registrations: &[Registration]) -> (res: DbResult<()>)
        ensures
            res is Ok,
            final(self).staged_registrations() == old(self).staged_registrations() + registrations@,
            final(self).staged_operators() == old(self).staged_operators(),
            old(self).wf() ==> final(self).wf(),
    {
        let mut i: usize = 0;
        while i < registrations.len()
            invariant
                i <= registrations@.len(),
                self.registrations@ == old(self).registrations@ + registrations@.take(i as int),
                self.operators == old(self).operators,
            decreases registrations@.len() - i,
        {
            self.registrations.push(registrations[i]);
            assert(registrations@.take(i + 1) =~= registrations@.take(i as int).push(
                registrations@[i as int],
            ));
            assert(self.registrations@ =~= old(self).registrations@ + registrations@.take(i + 1));
            i = i + 1;
        }
        assert(registrations@.take(registrations@.len() as int) =~= registrations@);
        Ok(())
    }

    /// Adds an operator to the transaction.
    pub fn register_operator(&mut self, operator: Operator) -> (res: DbResult<()>)
        requires
            old(self).wf(),
            operator.wf(),
        ensures
            res is Ok,
            final(self).wf(),
            final(self).staged_registrations() == old(self).staged_registrations(),
            final(self).staged_operators() == old(self).staged_operators().push(operator@),
    {
        self.operators.push(operator);
        assert(operator_views(self.operators@) =~= operator_views(old(self).operators@).push(
            operator@,
        ));
        Ok(())
    }

    /// Brings everything gathered into the store, registrations first, and sets the sync
    /// state.
    pub fn commit(self, db: &mut InMemoryDb, state: SyncStateUpdate) -> (res: DbResult<()>)
        requires
            old(db).wf(),
            self.wf(),
        ensures
            res is Ok,
            final(db).wf(),
            final(db)@ == old(db)@.register_all(self.staged_registrations()).register_operators(
                self.staged_operators(),
            ).with_sync_state(state),
            final(db).registration_order() == order_with_all(
                old(db).registration_order(),
                registered_keys(self.staged_registrations()),
            ),
            final(db).operator_order() == order_with_all(
                old(db).operator_order(),
                operator_signers(self.staged_operators()),
            ),
    {
        let _ = db.register_validators(self.registrations.as_slice());
        let ghost mid = db@;
        let ghost registered = db.registration_order();
        let mut i: usize = 0;
        while i < self.operators.len()
            invariant
                i <= self.operators@.len(),
                db.wf(),
                self.wf(),
                db@ == mid.register_operators(self.staged_operators().take(i as int)),
                db.registration_order() == registered,
                db.operator_order() == order_with_all(
                    old(db).operator_order(),
                    operator_signers(self.staged_operators().take(i as int)),
                ),
            decreases self.operators@.len() - i,
        {
            let operator = self.operators[i].clone();
            proof {
                let staged = self.staged_operators();
                assert(staged.take(i + 1).drop_last() =~= staged.take(i as int));
                assert(staged.take(i + 1).last() == operator@);
                assert(operator_signers(staged.take(i + 1)).drop_last() =~= operator_signers(
                    staged.take(i as int),
                ));
                assert(operator_signers(staged.take(i + 1)).last() == operator.signer);
            }
            let _ = db.register_operator(operator);
            i = i + 1;
        }
        assert(self.staged_operators().take(self.operators@.len() as int)
            =~= self.staged_operators());
        db.update_sync_state(state)
    }
}

impl InMemoryDb {
    /// Opens a transaction with nothing gathered. The store is not touched before the
    /// transaction is committed.
    pub fn begin_sync(&self) -> (res: DbResult<SyncTransaction>)
        ensures
            res matches Ok(tx) && tx.wf() && tx.staged_registrations() == Seq::<
                Registration,
            >::empty() && tx.staged_operators() == Seq::<OperatorView>::empty(),
    {
        let tx = SyncTransaction { registrations: Vec::new(), operators: Vec::new() };
        assert(tx.staged_operators() =~= Seq::<OperatorView>::empty());
        Ok(tx)
    }
}

} // verus!
