//! The sync engine: what it stores for a lookahead, and how it moves the read latch.

use vstd::prelude::*;
use crate::chain::EpochTransition;
use crate::db::memory::{
    entry_views, operator_signers, operator_views, order_with, order_with_all, registered_keys,
    DbState, InMemoryDb,
};
use crate::keyed::KeyedStore;
use crate::primitives::{Address, BlsPublicKey, ProposerDuty, SyncStateUpdate, ValidatorSummary};
use crate::records::{Operator, OperatorView, Registration, RegistryEntry, RegistryEntryView};

verus! {

/// The gas limit of a registration that the sync engine makes from a directory entry.
pub const SYNC_GAS_LIMIT: u64 = 10_000;

/// The keys of the proposers of duties, in the order of the duties.
pub open spec fn duty_pubkeys(duties: Seq<ProposerDuty>) -> Seq<BlsPublicKey> {
    Seq::new(duties.len(), |i: int| duties[i].public_key)
}

/// The keys of the validators of entries, in the order of the entries.
pub open spec fn pubkeys_of_entries(entries: Seq<RegistryEntryView>) -> Seq<BlsPublicKey> {
    Seq::new(entries.len(), |i: int| entries[i].validator_pubkey)
}

/// The keys of the proposers of a lookahead, in the order of the duties.
pub fn proposer_pubkeys(duties: &[ProposerDuty]) -> (out: Vec<BlsPublicKey>)
    ensures
        out@ == duty_pubkeys(duties@),
{
    let mut out: Vec<BlsPublicKey> = Vec::new();
    let mut i: usize = 0;
    while i < duties.len()
        invariant
            i <= duties@.len(),
            out@ == duty_pubkeys(duties@.take(i as int)),
        decreases duties@.len() - i,
    {
        out.push(duties[i].public_key);
        assert(out@ =~= duty_pubkeys(duties@.take(i + 1)));
        i = i + 1;
    }
    assert(duties@.take(duties@.len() as int) =~= duties@);
    out
}

/// The keys of the validators of directory entries, in the order of the entries.
pub fn entry_pubkeys(entries: &[RegistryEntry]) -> (out: Vec<BlsPublicKey>)
    ensures
        out@ == pubkeys_of_entries(entry_views(entries@)),
{
    let mut out: Vec<BlsPublicKey> = Vec::new();
    let mut i: usize = 0;
    while i < entries.len()
        invariant
            i <= entries@.len(),
            out@ == pubkeys_of_entries(entry_views(entries@.take(i as int))),
        decreases entries@.len() - i,
    {
        out.push(entries[i].validator_pubkey);
        assert(out@ =~= pubkeys_of_entries(entry_views(entries@.take(i + 1))));
        i = i + 1;
    }
    assert(entries@.take(entries@.len() as int) =~= entries@);
    out
}

/// The beacon-chain index of a validator according to the summaries of the active
/// validators: that of the first summary with the validator's key, if there is one.
pub open spec fn active_index(summaries: Seq<ValidatorSummary>, key: BlsPublicKey) -> Option<u64>
    decreases summaries.len(),
{
    if summaries.len() == 0 {
        None
    } else {
        match active_index(summaries.drop_last(), key) {
            Some(index) => Some(index),
            None => if summaries.last().public_key == key {
                Some(summaries.last().index)
            } else {
                None
            },
        }
    }
}

/// A validator has an index exactly when one of the summaries has its key.
pub proof fn lemma_active_index(summaries: Seq<ValidatorSummary>, key: BlsPublicKey)
    ensures
        active_index(summaries, key) is Some <==> exists|i: int|
            0 <= i < summaries.len() && (#[trigger] summaries[i]).public_key == key,
        active_index(summaries, key) matches Some(index) ==> exists|i: int|
            0 <= i < summaries.len() && (#[trigger] summaries[i]).public_key == key
                && summaries[i].index == index,
    decreases summaries.len(),
{
    if summaries.len() > 0 {
        let front = summaries.drop_last();
        lemma_active_index(front, key);
        if active_index(front, key) is Some {
            let i = choose|i: int|
                0 <= i < front.len() && (#[trigger] front[i]).public_key == key && front[i].index
                    == active_index(front, key).unwrap();
            assert(summaries[i] == front[i]);
        } else if summaries.last().public_key == key {
            assert(summaries[summaries.len() - 1].public_key == key);
        } else {
            if exists|i: int| 0 <= i < summaries.len() && (#[trigger] summaries[i]).public_key == key {
                let i = choose|i: int|
                    0 <= i < summaries.len() && (#[trigger] summaries[i]).public_key == key;
                assert(front[i] == summaries[i]);
            }
        }
    }
}

/// Looks a validator up in the summaries of the active validators.
pub fn find_active_index(summaries: &[ValidatorSummary], key: &BlsPublicKey) -> (out: Option<u64>)
    ensures
        out == active_index(summaries@, *key),
{
    let mut found: Option<u64> = None;
    let mut i: usize = 0;
    while i < summaries.len()
        invariant
            i <= summaries@.len(),
            found == active_index(summaries@.take(i as int), *key),
        decreases summaries@.len() - i,
    {
        proof {
            assert(summaries@.take(i + 1).drop_last() =~= summaries@.take(i as int));
            assert(summaries@.take(i + 1).last() == summaries@[i as int]);
        }
        if found.is_none() && summaries[i].public_key == *key {
            found = Some(summaries[i].index);
        }
        i = i + 1;
    }
    assert(summaries@.take(summaries@.len() as int) =~= summaries@);
    found
}

/// The registration that the sync engine makes from a directory entry of an active
/// validator: the default gas limit, no expiry, no signature.
pub open spec fn synthesized_registration(entry: RegistryEntryView, index: u64) -> Registration {
    Registration {
        validator_pubkey: entry.validator_pubkey,
        validator_index: index,
        operator: entry.operator,
        gas_limit: 10_000,
        expiry: 0,
        signature: None,
    }
}

/// The operator that the sync engine makes from a directory entry: no collateral.
pub open spec fn synthesized_operator(entry: RegistryEntryView) -> OperatorView {
    OperatorView {
        signer: entry.operator,
        rpc_endpoint: entry.rpc_endpoint,
        collateral_tokens: Seq::empty(),
        collateral_amounts: Seq::empty(),
    }
}

/// The registrations for a lookahead: one for each directory entry whose validator is
/// active, in the order of the entries. Entries of other validators are dropped.
pub open spec fn planned_registrations(
    entries: Seq<RegistryEntryView>,
    summaries: Seq<ValidatorSummary>,
) -> Seq<Registration>
    decreases entries.len(),
{
    if entries.len() == 0 {
        Seq::empty()
    } else {
        let before = planned_registrations(entries.drop_last(), summaries);
        match active_index(summaries, entries.last().validator_pubkey) {
            Some(index) => before.push(synthesized_registration(entries.last(), index)),
            None => before,
        }
    }
}

/// The operators for a lookahead, by signer: for each signer the operator of the last
/// directory entry that names it and whose validator is active.
pub open spec fn planned_operators(
    entries: Seq<RegistryEntryView>,
    summaries: Seq<ValidatorSummary>,
) -> Map<Address, OperatorView>
    decreases entries.len(),
{
    if entries.len() == 0 {
        Map::empty()
    } else {
        let before = planned_operators(entries.drop_last(), summaries);
        if active_index(summaries, entries.last().validator_pubkey) is Some {
            before.insert(entries.last().operator, synthesized_operator(entries.last()))
        } else {
            before
        }
    }
}

/// The signers of the planned operators, each once, in the order in which the directory
/// entries of active validators first name them.
pub open spec fn planned_signers(
    entries: Seq<RegistryEntryView>,
    summaries: Seq<ValidatorSummary>,
) -> Seq<Address>
    decreases entries.len(),
{
    if entries.len() == 0 {
        Seq::empty()
    } else {
        let before = planned_signers(entries.drop_last(), summaries);
        if active_index(summaries, entries.last().validator_pubkey) is Some {
            order_with(before, entries.last().operator)
        } else {
            before
        }
    }
}

/// Every planned operator stands under its own signer and has no collateral.
pub proof fn lemma_planned_operators(
    entries: Seq<RegistryEntryView>,
    summaries: Seq<ValidatorSummary>,
)
    ensures
        forall|a: Address| #[trigger]
            planned_operators(entries, summaries).contains_key(a) ==> {
                let operator = planned_operators(entries, summaries)[a];
                &&& operator.signer == a
                &&& operator.collateral_tokens.len() == 0
                &&& operator.collateral_amounts.len() == 0
            },
    decreases entries.len(),
{
    if entries.len() > 0 {
        let front = planned_operators(entries.drop_last(), summaries);
        let all = planned_operators(entries, summaries);
        lemma_planned_operators(entries.drop_last(), summaries);
        assert forall|a: Address| #[trigger] all.contains_key(a) implies {
            let operator = all[a];
            &&& operator.signer == a
            &&& operator.collateral_tokens.len() == 0
            &&& operator.collateral_amounts.len() == 0
        } by {
            if a != entries.last().operator {
                assert(front.contains_key(a));
            }
        }
    }
}

/// Every planned registration is for an active validator and carries the index that the
/// beacon chain reports for it, the default gas limit, no expiry and no signature.
pub proof fn lemma_planned_registrations(
    entries: Seq<RegistryEntryView>,
    summaries: Seq<ValidatorSummary>,
)
    ensures
        forall|i: int|
            0 <= i < planned_registrations(entries, summaries).len() ==> {
                let r = #[trigger] planned_registrations(entries, summaries)[i];
                &&& active_index(summaries, r.validator_pubkey) == Some(r.validator_index)
                &&& r.gas_limit == 10_000
                &&& r.expiry == 0
                &&& r.signature is None
                &&& planned_operators(entries, summaries).contains_key(r.operator)
            },
    decreases entries.len(),
{
    if entries.len() > 0 {
        let front = entries.drop_last();
        lemma_planned_registrations(front, summaries);
        let all = planned_registrations(entries, summaries);
        assert forall|i: int| 0 <= i < all.len() implies {
            let r = #[trigger] all[i];
            &&& active_index(summaries, r.validator_pubkey) == Some(r.validator_index)
            &&& r.gas_limit == 10_000
            &&& r.expiry == 0
            &&& r.signature is None
            &&& planned_operators(entries, summaries).contains_key(r.operator)
        } by {
            if i < planned_registrations(front, summaries).len() {
                assert(all[i] == planned_registrations(front, summaries)[i]);
            }
        }
    }
}

/// What the sync engine stores for one lookahead.
pub struct SyncPlan {
    /// The registrations, in the order of the directory entries.
    pub registrations: Vec<Registration>,
    /// The operators, one for each signer.
    pub operators: Vec<Operator>,
}

impl SyncPlan {
    /// Whether the plan holds exactly the operators of `planned`, each once.
    pub open spec fn holds_operators(&self, planned: Map<Address, OperatorView>) -> bool {
        &&& forall|i: int, j: int|
            0 <= i < j < self.operators@.len() ==> (#[trigger] self.operators@[i]).signer != (
            #[trigger] self.operators@[j]).signer
        &&& forall|i: int|
            0 <= i < self.operators@.len() ==> planned.contains_key(
                (#[trigger] self.operators@[i]).signer,
            ) && planned[self.operators@[i].signer] == self.operators@[i]@
        &&& forall|a: Address| #[trigger]
            planned.contains_key(a) ==> exists|i: int|
                0 <= i < self.operators@.len() && (#[trigger] self.operators@[i]).signer == a
    }
}

/// Reconciles the entries of an enrollment directory with the beacon chain: entries of
/// validators that are not active are dropped, each other entry gives a registration with
/// the validator's index, and each signer gives one operator.
pub fn reconcile(entries: &[RegistryEntry], summaries: &[ValidatorSummary]) -> (plan: SyncPlan)
    ensures
        plan.registrations@ == planned_registrations(entry_views(entries@), summaries@),
        plan.holds_operators(planned_operators(entry_views(entries@), summaries@)),
        operator_signers(operator_views(plan.operators@)) == planned_signers(
            entry_views(entries@),
            summaries@,
        ),
        forall|i: int| 0 <= i < plan.operators@.len() ==> (#[trigger] plan.operators@[i]).wf(),
{
    let mut registrations: Vec<Registration> = Vec::new();
    let mut operators: KeyedStore<20, Operator> = KeyedStore::new();
    let ghost views = entry_views(entries@);
    let mut i: usize = 0;
    while i < entries.len()
        invariant
            i <= entries@.len(),
            views == entry_views(entries@),
            operators.wf(),
            registrations@ == planned_registrations(views.take(i as int), summaries@),
            operators.keys() == planned_signers(views.take(i as int), summaries@),
            forall|a: Address|
                operators.map().contains_key(a) <==> planned_operators(
                    views.take(i as int),
                    summaries@,
                ).contains_key(a),
            forall|a: Address|
                operators.map().contains_key(a) ==> (#[trigger] operators.map()[a])@
                    == planned_operators(views.take(i as int), summaries@)[a],
        decreases entries@.len() - i,
    {
        let entry = &entries[i];
        proof {
            assert(views.take(i + 1).drop_last() =~= views.take(i as int));
            assert(views.take(i + 1).last() == entry@);
        }
        match find_active_index(summaries, &entry.validator_pubkey) {
            Some(validator_index) => {
                let operator = Operator::without_collateral(
                    entry.operator,
                    entry.rpc_endpoint.clone(),
                );
                operators.insert(entry.operator, operator);
                registrations.push(
                    Registration {
                        validator_pubkey: entry.validator_pubkey,
                        validator_index,
                        operator: entry.operator,
                        gas_limit: SYNC_GAS_LIMIT,
                        expiry: 0,
                        signature: None,
                    },
                );
            },
            None => {},
        }
        i = i + 1;
    }
    proof {
        assert(views.take(entries@.len() as int) =~= views);
        operators.lemma_wf();
        lemma_planned_operators(views, summaries@);
        let planned = planned_operators(views, summaries@);
        let keys = operators.keys();
        let values = operators.values();
        assert forall|i: int| 0 <= i < values.len() implies planned.contains_key(
            (#[trigger] values[i]).signer,
        ) && planned[values[i].signer] == values[i]@ && values[i].signer == keys[i] by {
            assert(operators.map().contains_key(keys[i]));
            assert(operators.map()[keys[i]] == values[i]);
            assert(planned.contains_key(keys[i]));
        }
        assert forall|a: Address| #[trigger] planned.contains_key(a) implies exists|i: int|
            0 <= i < values.len() && (#[trigger] values[i]).signer == a by {
            assert(keys.contains(a));
            let i = keys.index_of(a);
            assert(0 <= i < keys.len() && keys[i] == a);
            assert(values[i].signer == a);
        }
        assert forall|i: int, j: int| 0 <= i < j < values.len() implies (#[trigger] values[i]).signer
            != (#[trigger] values[j]).signer by {
            assert(values[i].signer == keys[i] && values[j].signer == keys[j]);
        }
    }
    let ghost planned = planned_operators(views, summaries@);
    let ghost operators_values = operators.values();
    let ghost operators_keys = operators.keys();
    let plan = SyncPlan { registrations, operators: operators.into_values() };
    proof {
        let ops = plan.operators@;
        assert(ops == operators_values);
        assert(forall|i: int|
            0 <= i < ops.len() ==> (#[trigger] operators_values[i]).signer == operators_keys[i]);
        assert(forall|i: int, j: int|
            0 <= i < j < ops.len() ==> (#[trigger] ops[i]).signer != (#[trigger] ops[j]).signer);
        assert(forall|i: int|
            0 <= i < ops.len() ==> planned.contains_key((#[trigger] ops[i]).signer)
                && planned[ops[i].signer] == ops[i]@);
        assert forall|a: Address| #[trigger] planned.contains_key(a) implies exists|i: int|
            0 <= i < ops.len() && (#[trigger] ops[i]).signer == a by {
            let i = choose|i: int| 0 <= i < ops.len() && (#[trigger] operators_values[i]).signer == a;
            assert(ops[i].signer == a);
        }
        assert forall|i: int| 0 <= i < ops.len() implies (#[trigger] ops[i]).wf() by {
            assert(planned.contains_key(ops[i].signer));
        }
        assert(operator_signers(operator_views(ops)) =~= operators_keys);
    }
    plan
}

/// The state of a store after the sync engine has stored a lookahead: the planned
/// registrations are stored in order, and each planned operator stands in place of what
/// its signer had.
pub open spec fn after_lookahead(
    state: DbState,
    entries: Seq<RegistryEntryView>,
    summaries: Seq<ValidatorSummary>,
) -> DbState {
    DbState {
        operators: state.operators.union_prefer_right(planned_operators(entries, summaries)),
        ..state.register_all(planned_registrations(entries, summaries))
    }
}

/// Reconciles the entries of an enrollment directory with the beacon chain and stores the
/// outcome: the registrations first, then the operators.
pub fn sync_lookahead(db: &mut InMemoryDb, entries: &[RegistryEntry], summaries: &[ValidatorSummary])
    requires
        old(db).wf(),
    ensures
        final(db).wf(),
        final(db)@ == after_lookahead(old(db)@, entry_views(entries@), summaries@),
        final(db).registration_order() == order_with_all(
            old(db).registration_order(),
            registered_keys(planned_registrations(entry_views(entries@), summaries@)),
        ),
        final(db).operator_order() == order_with_all(
            old(db).operator_order(),
            planned_signers(entry_views(entries@), summaries@),
        ),
{
    let plan = reconcile(entries, summaries);
    let ghost planned = planned_operators(entry_views(entries@), summaries@);
    let _ = db.register_validators(plan.registrations.as_slice());
    let ghost mid = db@;
    let ghost staged = operator_views(plan.operators@);
    let ghost registered = db.registration_order();
    let mut i: usize = 0;
    while i < plan.operators.len()
        invariant
            i <= plan.operators@.len(),
            db.wf(),
            staged == operator_views(plan.operators@),
            forall|k: int| 0 <= k < plan.operators@.len() ==> (#[trigger] plan.operators@[k]).wf(),
            db@ == mid.register_operators(staged.take(i as int)),
            db.registration_order() == registered,
            db.operator_order() == order_with_all(
                old(db).operator_order(),
                operator_signers(staged.take(i as int)),
            ),
        decreases plan.operators@.len() - i,
    {
        let operator = plan.operators[i].clone();
        proof {
            assert(staged.take(i + 1).drop_last() =~= staged.take(i as int));
            assert(staged.take(i + 1).last() == operator@);
            assert(operator_signers(staged.take(i + 1)).drop_last() =~= operator_signers(
                staged.take(i as int),
            ));
            assert(operator_signers(staged.take(i + 1)).last() == operator.signer);
        }
        let _ = db.register_operator(operator);
        i = i + 1;
    }
    proof {
        assert(staged.take(plan.operators@.len() as int) =~= staged);
        crate::db::memory::lemma_register_operators_frame(mid, staged);
        crate::db::memory::lemma_register_all_frame(
            old(db)@,
            planned_registrations(entry_views(entries@), summaries@),
        );
        let merged = mid.operators.union_prefer_right(planned);
        let stored = db@.operators;
        assert forall|a: Address|
            #![trigger stored.dom().contains(a)]
            #![trigger merged.dom().contains(a)]
            stored.dom().contains(a) == merged.dom().contains(a) && (merged.dom().contains(a)
                ==> stored[a] == merged[a]) by {
            if planned.contains_key(a) {
                let k = choose|k: int|
                    0 <= k < plan.operators@.len() && (#[trigger] plan.operators@[k]).signer == a;
                assert(staged[k].signer == a);
                assert forall|j: int| k < j < staged.len() implies (#[trigger] staged[j]).signer
                    != staged[k].signer by {
                    assert(plan.operators@[j].signer != plan.operators@[k].signer);
                }
                crate::db::memory::lemma_register_operators_stored(mid, staged, k);
            } else {
                if crate::db::memory::signs(staged, a) {
                    let k = choose|k: int| 0 <= k < staged.len() && (#[trigger] staged[k]).signer == a;
                    assert(planned.contains_key(plan.operators@[k].signer));
                }
                crate::db::memory::lemma_register_operators_other(mid, staged, a);
            }
        }
        assert(stored =~= merged);
    }
}

/// Whether readers may look at the store.
#[derive(Clone, Copy, Debug, PartialEq, Eq, Structural)]
pub enum SyncState {
    /// An epoch transition is being applied: readers wait.
    Syncing,
    /// The store is up to date: readers go on.
    Synced,
}

/// What a reader at the latch does.
#[derive(Clone, Copy, Debug, PartialEq, Eq, Structural)]
pub enum LatchAction {
    /// Read the store.
    Proceed,
    /// Wait for the next change of the latch.
    Wait,
    /// The sync engine is gone while syncing: the store may be half updated, so the
    /// process must end.
    Fail,
}

/// Decides what a reader does with the latch in state `state`, knowing whether the sync
/// engine is still there to move it.
pub fn latch_action(state: SyncState, engine_alive: bool) -> (action: LatchAction)
    ensures
        action == match state {
            SyncState::Synced => LatchAction::Proceed,
            SyncState::Syncing => if engine_alive {
                LatchAction::Wait
            } else {
                LatchAction::Fail
            },
        },
{
    match state {
        SyncState::Synced => LatchAction::Proceed,
        SyncState::Syncing => if engine_alive {
            LatchAction::Wait
        } else {
            LatchAction::Fail
        },
    }
}

/// The epochs whose lookaheads a transition reconciles, first and last included. With
/// `first` above `last` there is none.
#[derive(Clone, Copy, Debug, PartialEq, Eq, Structural)]
pub struct EpochRange {
    pub first: u64,
    pub last: u64,
}

impl EpochRange {
    /// Whether the range holds `epoch`.
    pub open spec fn spec_contains(&self, epoch: u64) -> bool {
        self.first <= epoch <= self.last
    }

    /// Whether the range holds `epoch`.
    #[verifier::when_used_as_spec(spec_contains)]
    pub fn contains(&self, epoch: u64) -> (held: bool)
        ensures
            held == self.spec_contains(epoch),
    {
        self.first <= epoch && epoch <= self.last
    }

    /// The epoch to reconcile after `epoch`, if the range goes on.
    pub fn next_after(&self, epoch: u64) -> (next: Option<u64>)
        ensures
            next == if self.first <= epoch < self.last {
                Some((epoch + 1) as u64)
            } else {
                None
            },
    {
        if self.first <= epoch && epoch < self.last {
            Some(epoch + 1)
        } else {
            None
        }
    }
}

/// The bookkeeping of the sync engine: the latch, how far it has reconciled, and the
/// transition it is applying.
pub struct Syncer {
    state: SyncState,
    last_block_number: u64,
    last_epoch: u64,
    latest: Option<EpochTransition>,
    in_flight: bool,
}

impl Syncer {
    /// The state of the read latch.
    pub closed spec fn latch(&self) -> SyncState {
        self.state
    }

    /// The block up to which contract events were taken in.
    pub closed spec fn last_block_number(&self) -> u64 {
        self.last_block_number
    }

    /// The epoch up to which lookaheads were reconciled.
    pub closed spec fn last_epoch(&self) -> u64 {
        self.last_epoch
    }

    /// The transition that was last handed to the engine.
    pub closed spec fn latest(&self) -> Option<EpochTransition> {
        self.latest
    }

    /// Whether the transition last handed to the engine is still being applied.
    pub closed spec fn in_flight(&self) -> bool {
        self.in_flight
    }

    /// The epoch of the transition that was last handed to the engine; 0 before the first.
    pub open spec fn observed_epoch(&self) -> u64 {
        match self.latest() {
            Some(transition) => transition.epoch,
            None => 0,
        }
    }

    /// What the latch promises to readers: while it is open, the stored sync state has
    /// reached the epoch of every transition handed to the engine.
    pub open spec fn latch_holds(&self, db: DbState) -> bool {
        self.latch() is Synced ==> db.sync_state.epoch >= self.observed_epoch()
    }

    /// An engine that has reconciled nothing, with the latch open.
    pub fn new() -> (out: Syncer)
        ensures
            out.latch() is Synced,
            out.last_block_number() == 0,
            out.last_epoch() == 0,
            out.latest() is None,
            !out.in_flight(),
    {
        Syncer {
            state: SyncState::Synced,
            last_block_number: 0,
            last_epoch: 0,
            latest: None,
            in_flight: false,
        }
    }

    /// An engine that goes on from a stored sync state: its epoch and block number are
    /// where reconciling starts again.
    pub fn resume(stored: SyncStateUpdate) -> (out: Syncer)
        ensures
            out.latch() is Synced,
            out.last_block_number() == stored.block_number,
            out.last_epoch() == stored.epoch,
            out.latest() is None,
            !out.in_flight(),
    {
        Syncer {
            state: SyncState::Synced,
            last_block_number: stored.block_number,
            last_epoch: stored.epoch,
            latest: None,
            in_flight: false,
        }
    }

    /// Sets the epoch from which the next transition reconciles.
    pub fn set_last_epoch(&mut self, epoch: u64)
        ensures
            final(self).last_epoch() == epoch,
            final(self).latch() == old(self).latch(),
            final(self).last_block_number() == old(self).last_block_number(),
            final(self).latest() == old(self).latest(),
            final(self).in_flight() == old(self).in_flight(),
    {
        self.last_epoch = epoch;
    }

    /// The state of the read latch.
    pub fn sync_state(&self) -> (state: SyncState)
        ensures
            state == self.latch(),
    {
        self.state
    }

    /// Whether readers have to wait.
    pub fn is_syncing(&self) -> (syncing: bool)
        ensures
            syncing == (self.latch() is Syncing),
    {
        match self.state {
            SyncState::Syncing => true,
            SyncState::Synced => false,
        }
    }

    /// The epoch up to which lookaheads were reconciled.
    pub fn reconciled_epoch(&self) -> (epoch: u64)
        ensures
            epoch == self.last_epoch(),
    {
        self.last_epoch
    }

    /// The block up to which contract events were taken in.
    pub fn reconciled_block(&self) -> (block: u64)
        ensures
            block == self.last_block_number(),
    {
        self.last_block_number
    }

    /// Starts applying a transition: closes the latch, moves the block mark to the
    /// transition's block, and says which epochs are to be reconciled: from the last
    /// reconciled epoch to the transition's.
    pub fn begin_transition(&mut self, transition: EpochTransition) -> (range: EpochRange)
        ensures
            final(self).latch() is Syncing,
            final(self).last_block_number() == transition.block_number,
            final(self).last_epoch() == old(self).last_epoch(),
            final(self).latest() == Some(transition),
            final(self).in_flight(),
            range == (EpochRange { first: old(self).last_epoch(), last: transition.epoch }),
    {
        self.state = SyncState::Syncing;
        self.last_block_number = transition.block_number;
        self.latest = Some(transition);
        self.in_flight = true;
        EpochRange { first: self.last_epoch, last: transition.epoch }
    }

    /// Gives up the transition that is being applied, after a lookahead could not be
    /// read. The latch stays closed until a later transition is finished.
    pub fn abort_transition(&mut self)
        ensures
            final(self).latch() == old(self).latch(),
            final(self).last_block_number() == old(self).last_block_number(),
            final(self).last_epoch() == old(self).last_epoch(),
            final(self).latest() == old(self).latest(),
            !final(self).in_flight(),
    {
        self.in_flight = false;
    }

    /// Ends the reconciling of the transition that is being applied: the last reconciled
    /// epoch becomes the transition's, and the sync state to store is handed out. Without
    /// a transition being applied nothing changes and nothing is handed out.
    pub fn complete_transition(&mut self) -> (to_store: Option<SyncStateUpdate>)
        ensures
            final(self).latch() == old(self).latch(),
            final(self).last_block_number() == old(self).last_block_number(),
            final(self).latest() == old(self).latest(),
            final(self).in_flight() == old(self).in_flight(),
            match old(self).latest() {
                Some(transition) if old(self).in_flight() => {
                    &&& final(self).last_epoch() == transition.epoch
                    &&& to_store == Some(
                        SyncStateUpdate {
                            block_number: transition.block_number,
                            epoch: transition.epoch,
                            slot: transition.slot,
                        },
                    )
                },
                _ => final(self).last_epoch() == old(self).last_epoch() && to_store is None,
            },
    {
        if !self.in_flight {
            return None;
        }
        match self.latest {
            Some(transition) => {
                self.last_epoch = transition.epoch;
                Some(
                    SyncStateUpdate {
                        block_number: transition.block_number,
                        epoch: transition.epoch,
                        slot: transition.slot,
                    },
                )
            },
            None => None,
        }
    }

    /// Opens the latch after the sync state of a completed transition was stored.
    pub fn mark_synced(&mut self)
        ensures
            final(self).latch() is Synced,
            !final(self).in_flight(),
            final(self).last_block_number() == old(self).last_block_number(),
            final(self).last_epoch() == old(self).last_epoch(),
            final(self).latest() == old(self).latest(),
    {
        self.state = SyncState::Synced;
        self.in_flight = false;
    }

    /// Finishes the transition that is being applied, on the in-memory store: stores the
    /// transition as the sync state and opens the latch. Without a transition being
    /// applied nothing changes.
    pub fn finish_transition(&mut self, db: &mut InMemoryDb) -> (finished: bool)
        ensures
            old(db).wf() ==> final(db).wf(),
            final(db).registration_order() == old(db).registration_order(),
            final(db).operator_order() == old(db).operator_order(),
            finished == (old(self).in_flight() && old(self).latest() is Some),
            final(self).latest() == old(self).latest(),
            final(self).last_block_number() == old(self).last_block_number(),
            finished ==> {
                &&& final(self).latch() is Synced
                &&& !final(self).in_flight()
                &&& final(self).last_epoch() == old(self).latest().unwrap().epoch
                &&& final(db)@ == old(db)@.with_sync_state(
                    SyncStateUpdate {
                        block_number: old(self).latest().unwrap().block_number,
                        epoch: old(self).latest().unwrap().epoch,
                        slot: old(self).latest().unwrap().slot,
                    },
                )
                &&& final(self).latch_holds(final(db)@)
            },
            !finished ==> {
                &&& final(self).latch() == old(self).latch()
                &&& final(self).in_flight() == old(self).in_flight()
                &&& final(self).last_epoch() == old(self).last_epoch()
                &&& final(db)@ == old(db)@
            },
    {
        match self.complete_transition() {
            Some(state) => {
                let _ = db.update_sync_state(state);
                self.mark_synced();
                true
            },
            None => false,
        }
    }

    /// Reads the stored sync state through the latch: handed out exactly when the latch is
    /// open, and then its epoch has reached that of every transition handed to the engine.
    pub fn read_sync_state(&self, db: &InMemoryDb) -> (out: Option<SyncStateUpdate>)
        requires
            self.latch_holds(db@),
        ensures
            out is Some <==> self.latch() is Synced,
            out matches Some(state) ==> state == db@.sync_state && state.epoch
                >= self.observed_epoch(),
    {
        match self.state {
            SyncState::Synced => match db.get_sync_state() {
                Ok(state) => Some(state),
                Err(_) => None,
            },
            SyncState::Syncing => None,
        }
    }
}

/// The latch's promise survives what the dispatcher and the engine write besides the sync
/// state: registrations, withdrawals and operators leave the stored sync state alone.
pub proof fn lemma_latch_survives_writes(
    syncer: Syncer,
    db: DbState,
    rows: Seq<Registration>,
    withdrawn: Seq<crate::records::Deregistration>,
    operators: Seq<OperatorView>,
)
    requires
        syncer.latch_holds(db),
    ensures
        syncer.latch_holds(db.register_all(rows)),
        syncer.latch_holds(db.deregister_all(withdrawn)),
        syncer.latch_holds(db.register_operators(operators)),
{
    crate::db::memory::lemma_register_all_frame(db, rows);
    crate::db::memory::lemma_deregister_all_frame(db, withdrawn);
    crate::db::memory::lemma_register_operators_frame(db, operators);
}

} // verus!
