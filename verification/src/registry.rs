//! The decisions of the action dispatcher: what each action does to the store and what
//! it answers, given what the beacon chain said.

use vstd::prelude::*;
use vstd::string::StringExecFns;
use crate::db::memory::{
    entry_views, operator_views, order_after_deregistrations, order_with_all, registered_keys,
    DbState, InMemoryDb,
};
use crate::db::DbError;
use crate::keyed::KeyedStore;
use crate::primitives::{Address, BlsPublicKey, ProposerDuty, ValidatorSummary};
use crate::records::{
    DeregistrationBatch, Lookahead, Operator, Registration, RegistrationBatch, RegistryEntry,
    RegistryEntryView,
};
use crate::sync::proposer_pubkeys;

verus! {

broadcast use vstd::std_specs::hash::group_hash_axioms;

/// Why the beacon node could not be asked.
#[derive(Debug)]
pub enum BeaconClientError {
    /// The request failed on the way.
    Reqwest,
    /// The answer could not be decoded.
    Serde,
    /// A hex string in the answer is malformed.
    Hex,
    /// A number in the answer is malformed.
    ParseInt,
    /// The answer lacks the named data.
    DataNotFound(String),
    /// The beacon node answered with an error.
    Inner,
    /// The URL of the request could not be built.
    Url,
}

/// Why an action failed.
#[derive(Debug)]
pub enum RegistryError {
    /// The action queue stayed full for longer than the send timeout.
    BufferFull,
    /// The reply channel was dropped before an answer came.
    ResponseChannelDropped,
    /// A query for one record found none.
    NotFound,
    /// The store failed.
    Database(DbError),
    /// The beacon node could not be asked.
    Beacon(BeaconClientError),
    /// The request is refused; the text says why.
    BadRequest(&'static str),
}

/// The message for a registration batch with a validator that is not active.
pub const NOT_ALL_ACTIVE: &'static str =
    "Not all validators are active in the beacon chain, skipping registration";

/// The message for a batch whose signatures do not pair up with its validators.
pub const SIGNATURE_COUNT_MISMATCH: &'static str =
    "The batch does not hold one signature for each validator";

/// The HTTP status that stands for an error: 400 for a refused request, 404 for a record
/// that was not found, 500 for everything else.
pub open spec fn spec_status_code(e: RegistryError) -> u16 {
    match e {
        RegistryError::BadRequest(_) => 400,
        RegistryError::NotFound => 404,
        _ => 500,
    }
}

/// The characters of `a`, then those of `b`, as one text.
pub(crate) fn concat(a: &str, b: &str) -> (out: String)
    ensures
        out@ == a@ + b@,
{
    a.to_owned().concat(b)
}

impl RegistryError {
    /// The HTTP status that stands for the error.
    pub fn status_code(&self) -> (code: u16)
        ensures
            code == spec_status_code(*self),
    {
        match self {
            RegistryError::BadRequest(_) => 400,
            RegistryError::NotFound => 404,
            _ => 500,
        }
    }

    /// The message that goes out with the error: the reason of a refused request after
    /// "Bad Request: ", "Not Found", and for everything else "Internal Server Error".
    pub fn message(&self) -> (text: String)
        ensures
            text@ == match *self {
                RegistryError::BadRequest(reason) => "Bad Request: "@ + reason@,
                RegistryError::NotFound => "Not Found"@,
                _ => "Internal Server Error"@,
            },
    {
        match self {
            RegistryError::BadRequest(reason) => concat("Bad Request: ", reason),
            RegistryError::NotFound => "Not Found".to_owned(),
            _ => "Internal Server Error".to_owned(),
        }
    }

    /// The body that goes out with the error.
    pub fn error_body(&self) -> (body: ErrorBody)
        ensures
            body.code == spec_status_code(*self),
            body.message@ == match *self {
                RegistryError::BadRequest(reason) => "Bad Request: "@ + reason@,
                RegistryError::NotFound => "Not Found"@,
                _ => "Internal Server Error"@,
            },
    {
        ErrorBody { code: self.status_code(), message: self.message() }
    }
}

/// How an error is told to an HTTP client: the status and a message.
#[derive(Debug)]
pub struct ErrorBody {
    pub code: u16,
    pub message: String,
}

/// The index of each active validator: for each key the index of the last summary that
/// has it.
pub open spec fn index_map_of(active: Seq<ValidatorSummary>) -> Map<BlsPublicKey, u64>
    decreases active.len(),
{
    if active.len() == 0 {
        Map::empty()
    } else {
        index_map_of(active.drop_last()).insert(active.last().public_key, active.last().index)
    }
}

/// Collects the index of each active validator by key.
pub fn index_map(active: &[ValidatorSummary]) -> (out: KeyedStore<48, u64>)
    ensures
        out.wf(),
        out.map() == index_map_of(active@),
{
    let mut out: KeyedStore<48, u64> = KeyedStore::new();
    let mut i: usize = 0;
    while i < active.len()
        invariant
            i <= active@.len(),
            out.wf(),
            out.map() == index_map_of(active@.take(i as int)),
        decreases active@.len() - i,
    {
        proof {
            assert(active@.take(i + 1).drop_last() =~= active@.take(i as int));
            assert(active@.take(i + 1).last() == active@[i as int]);
        }
        out.insert(active[i].public_key, active[i].index);
        i = i + 1;
    }
    assert(active@.take(active@.len() as int) =~= active@);
    out
}

/// Whether a registration batch is accepted, given the summaries of those of its
/// validators that are active: it has one signature for each validator, and there are as
/// many active validators as the batch names.
pub open spec fn registration_accepted(batch: RegistrationBatch, active: Seq<ValidatorSummary>)
    -> bool {
    &&& batch.wf()
    &&& index_map_of(active).len() == batch.validator_pubkeys@.len()
}

/// Decides on a registration batch. `active` is what the beacon chain reports of the
/// batch's validators that are active at the head. A batch that is accepted gives the
/// registrations to store, each validator with the index from `active`; any other batch
/// is refused, and nothing is to be stored.
pub fn plan_registration(batch: RegistrationBatch, active: &[ValidatorSummary]) -> (res: Result<
    Vec<Registration>,
    RegistryError,
>)
    ensures
        res is Ok <==> registration_accepted(batch, active@),
        res matches Ok(rows) ==> rows@ == batch.items(index_map_of(active@)),
        res matches Err(e) ==> {
            &&& e matches RegistryError::BadRequest(reason)
            &&& reason@ == if batch.wf() {
                NOT_ALL_ACTIVE@
            } else {
                SIGNATURE_COUNT_MISMATCH@
            }
        },
{
    if !batch.is_well_formed() {
        return Err(RegistryError::BadRequest(SIGNATURE_COUNT_MISMATCH));
    }
    let count = batch.validator_pubkeys.len();
    let indices = index_map(active);
    proof {
        indices.lemma_len();
    }
    if indices.len() != count {
        return Err(RegistryError::BadRequest(NOT_ALL_ACTIVE));
    }
    Ok(batch.into_items(&indices))
}

/// Decides on a withdrawal batch: a batch with one signature for each validator gives
/// the withdrawals to apply; any other batch is refused.
pub fn plan_deregistration(batch: DeregistrationBatch) -> (res: Result<
    Vec<crate::records::Deregistration>,
    RegistryError,
>)
    ensures
        res is Ok <==> batch.wf(),
        res matches Ok(rows) ==> rows@ == batch.items(),
        res matches Err(e) ==> e matches RegistryError::BadRequest(reason) && reason@
            == SIGNATURE_COUNT_MISMATCH@,
{
    if !batch.is_well_formed() {
        return Err(RegistryError::BadRequest(SIGNATURE_COUNT_MISMATCH));
    }
    Ok(batch.into_items())
}

/// Registers the validators of a batch. `active` is what the beacon chain reports of the
/// batch's validators that are active at the head. A batch that is accepted is stored,
/// each validator with the index from `active`; any other batch is refused and the store
/// stays as it was.
pub fn register_validators(
    db: &mut InMemoryDb,
    batch: RegistrationBatch,
    active: &[ValidatorSummary],
) -> (res: Result<(), RegistryError>)
    requires
        old(db).wf(),
    ensures
        final(db).wf(),
        res is Ok <==> registration_accepted(batch, active@),
        res is Ok ==> final(db)@ == old(db)@.register_all(batch.items(index_map_of(active@)))
            && final(db).registration_order() == order_with_all(
            old(db).registration_order(),
            registered_keys(batch.items(index_map_of(active@))),
        ),
        res matches Err(e) ==> {
            &&& final(db)@ == old(db)@
            &&& final(db).registration_order() == old(db).registration_order()
            &&& e matches RegistryError::BadRequest(reason)
            &&& reason@ == if batch.wf() {
                NOT_ALL_ACTIVE@
            } else {
                SIGNATURE_COUNT_MISMATCH@
            }
        },
        final(db).operator_order() == old(db).operator_order(),
{
    match plan_registration(batch, active) {
        Ok(registrations) => {
            let _ = db.register_validators(registrations.as_slice());
            Ok(())
        },
        Err(e) => Err(e),
    }
}

/// Withdraws the validators of a batch. A batch with one signature for each validator
/// is applied, and validators that are not registered are passed over; any other batch
/// is refused and the store stays as it was.
pub fn deregister_validators(db: &mut InMemoryDb, batch: DeregistrationBatch) -> (res: Result<
    (),
    RegistryError,
>)
    requires
        old(db).wf(),
    ensures
        final(db).wf(),
        res is Ok <==> batch.wf(),
        res is Ok ==> final(db)@ == old(db)@.deregister_all(batch.items())
            && final(db).registration_order() == order_after_deregistrations(
            old(db).registration_order(),
            batch.items(),
        ),
        res matches Err(e) ==> {
            &&& final(db)@ == old(db)@
            &&& final(db).registration_order() == old(db).registration_order()
            &&& e matches RegistryError::BadRequest(reason)
            &&& reason@ == SIGNATURE_COUNT_MISMATCH@
        },
        final(db).operator_order() == old(db).operator_order(),
{
    match plan_deregistration(batch) {
        Ok(items) => {
            let _ = db.deregister_validators(items.as_slice());
            Ok(())
        },
        Err(e) => Err(e),
    }
}

/// The answer to a query for one record: the first record found, and `NotFound` where
/// none was.
pub fn first_or_not_found<T>(found: Vec<T>) -> (res: Result<T, RegistryError>)
    ensures
        res is Ok <==> found@.len() > 0,
        res matches Ok(record) ==> record == found@[0],
        res matches Err(e) ==> e is NotFound,
{
    let mut found = found;
    if found.len() == 0 {
        Err(RegistryError::NotFound)
    } else {
        Ok(found.swap_remove(0))
    }
}

/// The first of the entries that is for validator `key`.
pub open spec fn first_entry_for(entries: Seq<RegistryEntryView>, key: BlsPublicKey) -> Option<
    RegistryEntryView,
>
    decreases entries.len(),
{
    if entries.len() == 0 {
        None
    } else {
        match first_entry_for(entries.drop_last(), key) {
            Some(entry) => Some(entry),
            None => if entries.last().validator_pubkey == key {
                Some(entries.last())
            } else {
                None
            },
        }
    }
}

/// The lookahead of an epoch: each duty whose proposer has an entry puts that entry
/// under the duty's slot; a later duty for the same slot comes in place of an earlier one.
pub open spec fn lookahead_of(duties: Seq<ProposerDuty>, entries: Seq<RegistryEntryView>) -> Map<
    u64,
    RegistryEntryView,
>
    decreases duties.len(),
{
    if duties.len() == 0 {
        Map::empty()
    } else {
        let before = lookahead_of(duties.drop_last(), entries);
        match first_entry_for(entries, duties.last().public_key) {
            Some(entry) => before.insert(duties.last().slot, entry),
            None => before,
        }
    }
}

/// The lookahead of an epoch as the store gives it: each duty whose proposer has an entry
/// in discovery puts that entry under the duty's slot.
pub open spec fn store_lookahead(state: DbState, duties: Seq<ProposerDuty>) -> Map<
    u64,
    RegistryEntryView,
>
    decreases duties.len(),
{
    if duties.len() == 0 {
        Map::empty()
    } else {
        let before = store_lookahead(state, duties.drop_last());
        match state.entry_of(duties.last().public_key) {
            Some(entry) => before.insert(duties.last().slot, entry),
            None => before,
        }
    }
}

/// Among the entries that discovery returns for `keys`, the first one for a validator is
/// the validator's entry, and there is one exactly when `keys` names the validator and it
/// has an entry.
pub proof fn lemma_first_entry_is_entry_of(
    state: DbState,
    keys: Seq<BlsPublicKey>,
    key: BlsPublicKey,
)
    requires
        state.consistent(),
    ensures
        first_entry_for(state.entries_by_pubkey(keys), key) == if keys.contains(key) {
            state.entry_of(key)
        } else {
            None
        },
    decreases keys.len(),
{
    if keys.len() > 0 {
        let front = keys.drop_last();
        lemma_first_entry_is_entry_of(state, front, key);
        let before = state.entries_by_pubkey(front);
        if keys.contains(key) && !front.contains(key) {
            let i = keys.index_of(key);
            assert(0 <= i < keys.len() && keys[i] == key);
            if i < front.len() {
                assert(front[i] == key);
            }
            assert(keys.last() == key);
        }
        if front.contains(key) {
            let i = front.index_of(key);
            assert(0 <= i < front.len() && front[i] == key);
            assert(keys[i] == key);
        }
        if keys.last() == key {
            assert(keys[keys.len() - 1] == key);
        }
        match state.entry_of(keys.last()) {
            Some(entry) => {
                assert(state.entries_by_pubkey(keys) == before.push(entry));
                assert(before.push(entry).drop_last() =~= before);
                assert(entry.validator_pubkey == keys.last());
            },
            None => {},
        }
    }
}

/// Building the lookahead from the entries that discovery returns for the proposers
/// gives the lookahead of the store.
pub proof fn lemma_lookahead_of_store(
    state: DbState,
    duties: Seq<ProposerDuty>,
    keys: Seq<BlsPublicKey>,
)
    requires
        state.consistent(),
        forall|i: int| 0 <= i < duties.len() ==> keys.contains((#[trigger] duties[i]).public_key),
    ensures
        lookahead_of(duties, state.entries_by_pubkey(keys)) == store_lookahead(state, duties),
    decreases duties.len(),
{
    if duties.len() > 0 {
        let front = duties.drop_last();
        assert forall|i: int| 0 <= i < front.len() implies keys.contains(
            (#[trigger] front[i]).public_key,
        ) by {
            assert(front[i] == duties[i]);
        }
        lemma_lookahead_of_store(state, front, keys);
        assert(keys.contains(duties[duties.len() - 1].public_key));
        lemma_first_entry_is_entry_of(state, keys, duties.last().public_key);
    }
}

/// In the lookahead of the store every slot holds the entry of a proposer of that slot,
/// and so only validators that are registered with a stored operator.
pub proof fn lemma_store_lookahead(state: DbState, duties: Seq<ProposerDuty>, slot: u64)
    requires
        store_lookahead(state, duties).contains_key(slot),
    ensures
        exists|i: int|
            0 <= i < duties.len() && (#[trigger] duties[i]).slot == slot && state.entry_of(
                duties[i].public_key,
            ) == Some(store_lookahead(state, duties)[slot]),
    decreases duties.len(),
{
    if duties.len() > 0 {
        let front = duties.drop_last();
        let last = duties[duties.len() - 1];
        if state.entry_of(last.public_key) is Some && last.slot == slot {
        } else {
            lemma_store_lookahead(state, front, slot);
            let i = choose|i: int|
                0 <= i < front.len() && (#[trigger] front[i]).slot == slot && state.entry_of(
                    front[i].public_key,
                ) == Some(store_lookahead(state, front)[slot]);
            assert(duties[i] == front[i]);
        }
    }
}

/// After the registrations of a batch are stored, each validator that got one is
/// registered with the index that the beacon chain reported for it.
pub proof fn lemma_registered_index_is_observed(
    state: DbState,
    batch: RegistrationBatch,
    active: Seq<ValidatorSummary>,
    key: BlsPublicKey,
)
    requires
        crate::db::memory::registers(batch.items(index_map_of(active)), key),
    ensures
        state.register_all(batch.items(index_map_of(active))).registrations.contains_key(key),
        state.register_all(batch.items(index_map_of(active))).registrations[key].validator_index
            == index_map_of(active)[key],
{
    let index_of = index_map_of(active);
    let n = crate::records::shorter(batch.validator_pubkeys@.len(), batch.signatures@.len()) as int;
    batch.lemma_items_carry_known_index(index_of, n);
    crate::db::memory::lemma_register_all_indexed(state, batch.items(index_of), index_of, key);
}

/// A lookahead as a plain map.
pub open spec fn lookahead_view(lookahead: Map<u64, RegistryEntry>) -> Map<u64, RegistryEntryView> {
    Map::new(|slot: u64| lookahead.contains_key(slot), |slot: u64| lookahead[slot]@)
}

/// Finds the first of the entries that is for validator `key`.
pub fn find_entry<'a>(entries: &'a [RegistryEntry], key: &BlsPublicKey) -> (out: Option<
    &'a RegistryEntry,
>)
    ensures
        match out {
            Some(entry) => first_entry_for(entry_views(entries@), *key) == Some(entry@),
            None => first_entry_for(entry_views(entries@), *key) is None,
        },
{
    let ghost views = entry_views(entries@);
    let mut found: Option<&'a RegistryEntry> = None;
    let mut i: usize = 0;
    while i < entries.len()
        invariant
            i <= entries@.len(),
            views == entry_views(entries@),
            match found {
                Some(entry) => first_entry_for(views.take(i as int), *key) == Some(entry@),
                None => first_entry_for(views.take(i as int), *key) is None,
            },
        decreases entries@.len() - i,
    {
        proof {
            assert(views.take(i + 1).drop_last() =~= views.take(i as int));
            assert(views.take(i + 1).last() == entries@[i as int]@);
        }
        if found.is_none() && entries[i].validator_pubkey == *key {
            found = Some(&entries[i]);
        }
        i = i + 1;
    }
    assert(views.take(entries@.len() as int) =~= views);
    found
}

/// Builds the lookahead of an epoch from its proposer duties and the registry entries
/// of the proposers.
pub fn build_lookahead(duties: &[ProposerDuty], entries: &[RegistryEntry]) -> (out: Lookahead)
    ensures
        lookahead_view(out@) == lookahead_of(duties@, entry_views(entries@)),
{
    let mut out: Lookahead = Lookahead::new();
    let ghost views = entry_views(entries@);
    let mut i: usize = 0;
    assert(lookahead_view(out@) =~= lookahead_of(duties@.take(0), views));
    while i < duties.len()
        invariant
            i <= duties@.len(),
            views == entry_views(entries@),
            lookahead_view(out@) == lookahead_of(duties@.take(i as int), views),
        decreases duties@.len() - i,
    {
        proof {
            assert(duties@.take(i + 1).drop_last() =~= duties@.take(i as int));
            assert(duties@.take(i + 1).last() == duties@[i as int]);
        }
        let ghost before = out@;
        match find_entry(entries, &duties[i].public_key) {
            Some(entry) => {
                let copy = entry.clone();
                out.insert(duties[i].slot, copy);
                assert(lookahead_view(out@) =~= lookahead_view(before).insert(
                    duties@[i as int].slot,
                    entry@,
                ));
            },
            None => {},
        }
        i = i + 1;
    }
    assert(duties@.take(duties@.len() as int) =~= duties@);
    out
}

/// The registered proposers of an epoch by slot, from the epoch's proposer duties and the
/// store: a duty is in the lookahead exactly when discovery has an entry for its proposer.
pub fn get_lookahead(db: &InMemoryDb, duties: &[ProposerDuty]) -> (res: Result<
    Lookahead,
    RegistryError,
>)
    requires
        db.wf(),
    ensures
        res matches Ok(out) && lookahead_view(out@) == store_lookahead(db@, duties@),
{
    let pubkeys = proposer_pubkeys(duties);
    proof {
        db.lemma_wf();
        assert forall|i: int| 0 <= i < duties@.len() implies pubkeys@.contains(
            (#[trigger] duties@[i]).public_key,
        ) by {
            assert(pubkeys@[i] == duties@[i].public_key);
        }
        lemma_lookahead_of_store(db@, duties@, pubkeys@);
    }
    match db.get_validators_by_pubkey(pubkeys.as_slice()) {
        Ok(entries) => Ok(build_lookahead(duties, entries.as_slice())),
        Err(e) => Err(RegistryError::Database(e)),
    }
}

/// A request to the registry, as the HTTP surface puts it on the action queue.
#[derive(Debug)]
pub enum Action {
    Register { batch: RegistrationBatch },
    Deregister { batch: DeregistrationBatch },
    GetRegistrations,
    GetValidators,
    GetValidatorsByPubkeys { pubkeys: Vec<BlsPublicKey> },
    GetValidatorsByIndices { indices: Vec<u64> },
    GetValidatorByPubkey { pubkey: BlsPublicKey },
    GetOperators,
    GetOperator { signer: Address },
    GetLookahead { epoch: u64 },
}

/// What the dispatcher has to ask the beacon node before it can handle an action.
#[derive(Debug)]
pub enum BeaconRequest {
    /// Nothing: the action needs the store only.
    Nothing,
    /// The summaries of those of `pubkeys` that are active at the head.
    ActiveValidators { pubkeys: Vec<BlsPublicKey> },
    /// The proposer duties of `epoch`; with `extended`, those of the next epoch too.
    ProposerDuties { epoch: u64, extended: bool },
}

/// What the beacon node said.
#[derive(Debug)]
pub enum BeaconAnswer {
    /// Nothing was asked.
    Nothing,
    ActiveValidators(Vec<ValidatorSummary>),
    ProposerDuties(Vec<ProposerDuty>),
    /// The beacon node could not be asked.
    Failed(BeaconClientError),
}

/// The answer to an action.
#[derive(Debug)]
pub enum Reply {
    Register(Result<(), RegistryError>),
    Deregister(Result<(), RegistryError>),
    Registrations(Result<Vec<Registration>, RegistryError>),
    Validators(Result<Vec<RegistryEntry>, RegistryError>),
    Validator(Result<RegistryEntry, RegistryError>),
    Operators(Result<Vec<Operator>, RegistryError>),
    Operator(Result<Operator, RegistryError>),
    Lookahead(Result<Lookahead, RegistryError>),
}

/// The error for an action that did not get what it needs from the beacon node: the
/// node's own failure, or that the data is missing.
pub fn beacon_failure(answer: BeaconAnswer) -> (e: RegistryError)
    ensures
        match answer {
            BeaconAnswer::Failed(cause) => e == RegistryError::Beacon(cause),
            _ => e matches RegistryError::Beacon(BeaconClientError::DataNotFound(what)) && what@
                == "beacon data"@,
        },
{
    match answer {
        BeaconAnswer::Failed(cause) => RegistryError::Beacon(cause),
        _ => RegistryError::Beacon(BeaconClientError::DataNotFound("beacon data".to_owned())),
    }
}

impl Action {
    /// What has to be asked of the beacon node before the action is handled: for a
    /// registration the active validators among the batch's, for a lookahead the
    /// proposer duties of its epoch alone, for every other action nothing.
    pub fn beacon_request(&self) -> (request: BeaconRequest)
        ensures
            match *self {
                Action::Register { batch } => request matches BeaconRequest::ActiveValidators {
                    pubkeys,
                } && pubkeys@ == batch.validator_pubkeys@,
                Action::GetLookahead { epoch } => request matches BeaconRequest::ProposerDuties {
                    epoch: asked,
                    extended,
                } && asked == epoch && !extended,
                _ => request is Nothing,
            },
    {
        match self {
            Action::Register { batch } => BeaconRequest::ActiveValidators {
                pubkeys: crate::records::copy_vec(&batch.validator_pubkeys),
            },
            Action::GetLookahead { epoch } => BeaconRequest::ProposerDuties {
                epoch: *epoch,
                extended: false,
            },
            _ => BeaconRequest::Nothing,
        }
    }
}

/// Handles one action on the store, with what the beacon node answered to the action's
/// request, and gives the reply for the caller. Only a registration and a withdrawal
/// change the store; an action that lacks its beacon data fails and changes nothing.
pub fn handle_action(db: &mut InMemoryDb, action: Action, answer: BeaconAnswer) -> (reply: Reply)
    requires
        old(db).wf(),
    ensures
        final(db).wf(),
        final(db).operator_order() == old(db).operator_order(),
        !(action is Register) && !(action is Deregister) ==> final(db).registration_order()
            == old(db).registration_order(),
        match action {
            Action::Register { batch } => reply matches Reply::Register(res) && match answer {
                BeaconAnswer::ActiveValidators(active) => {
                    &&& res is Ok <==> registration_accepted(batch, active@)
                    &&& res is Ok ==> final(db)@ == old(db)@.register_all(
                        batch.items(index_map_of(active@)),
                    ) && final(db).registration_order() == order_with_all(
                        old(db).registration_order(),
                        registered_keys(batch.items(index_map_of(active@))),
                    )
                    &&& res matches Err(e) ==> {
                        &&& final(db)@ == old(db)@
                        &&& final(db).registration_order() == old(db).registration_order()
                        &&& e matches RegistryError::BadRequest(reason)
                        &&& reason@ == if batch.wf() {
                            NOT_ALL_ACTIVE@
                        } else {
                            SIGNATURE_COUNT_MISMATCH@
                        }
                    }
                },
                BeaconAnswer::Failed(cause) => {
                    &&& res matches Err(e) && e == RegistryError::Beacon(cause)
                    &&& final(db)@ == old(db)@
                    &&& final(db).registration_order() == old(db).registration_order()
                },
                _ => {
                    &&& res matches Err(e) && e is Beacon
                    &&& final(db)@ == old(db)@
                    &&& final(db).registration_order() == old(db).registration_order()
                },
            },
            Action::Deregister { batch } => {
                &&& reply matches Reply::Deregister(res)
                &&& res is Ok <==> batch.wf()
                &&& res is Ok ==> final(db)@ == old(db)@.deregister_all(batch.items())
                    && final(db).registration_order() == order_after_deregistrations(
                    old(db).registration_order(),
                    batch.items(),
                )
                &&& res matches Err(e) ==> {
                    &&& final(db)@ == old(db)@
                    &&& final(db).registration_order() == old(db).registration_order()
                    &&& e matches RegistryError::BadRequest(reason)
                    &&& reason@ == SIGNATURE_COUNT_MISMATCH@
                }
            },
            Action::GetRegistrations => {
                &&& final(db)@ == old(db)@
                &&& reply matches Reply::Registrations(Ok(out))
                &&& out@ == old(db)@.registrations_by_pubkey(old(db).registration_order())
            },
            Action::GetValidators => {
                &&& final(db)@ == old(db)@
                &&& reply matches Reply::Validators(Ok(out))
                &&& entry_views(out@) == old(db)@.entries_by_pubkey(old(db).registration_order())
            },
            Action::GetValidatorsByPubkeys { pubkeys } => {
                &&& final(db)@ == old(db)@
                &&& reply matches Reply::Validators(Ok(out))
                &&& entry_views(out@) == old(db)@.entries_by_pubkey(pubkeys@)
            },
            Action::GetValidatorsByIndices { indices } => {
                &&& final(db)@ == old(db)@
                &&& reply matches Reply::Validators(Ok(out))
                &&& entry_views(out@) == old(db)@.entries_by_index(indices@)
            },
            Action::GetValidatorByPubkey { pubkey } => {
                &&& final(db)@ == old(db)@
                &&& reply matches Reply::Validator(res)
                &&& match old(db)@.entry_of(pubkey) {
                    Some(expected) => res matches Ok(entry) && entry@ == expected,
                    None => res matches Err(e) && e is NotFound,
                }
            },
            Action::GetOperators => {
                &&& final(db)@ == old(db)@
                &&& reply matches Reply::Operators(Ok(out))
                &&& operator_views(out@) == old(db)@.operators_by_signer(old(db).operator_order())
            },
            Action::GetOperator { signer } => {
                &&& final(db)@ == old(db)@
                &&& reply matches Reply::Operator(res)
                &&& if old(db)@.operators.contains_key(signer) {
                    res matches Ok(operator) && operator@ == old(db)@.operators[signer]
                } else {
                    res matches Err(e) && e is NotFound
                }
            },
            Action::GetLookahead { epoch } => {
                &&& final(db)@ == old(db)@
                &&& reply matches Reply::Lookahead(res)
                &&& match answer {
                    BeaconAnswer::ProposerDuties(duties) => res matches Ok(out) && lookahead_view(
                        out@,
                    ) == store_lookahead(old(db)@, duties@),
                    BeaconAnswer::Failed(cause) => res matches Err(e) && e
                        == RegistryError::Beacon(cause),
                    _ => res matches Err(e) && e is Beacon,
                }
            },
        },
{
    match action {
        Action::Register { batch } => match answer {
            BeaconAnswer::ActiveValidators(active) => Reply::Register(
                register_validators(db, batch, active.as_slice()),
            ),
            other => Reply::Register(Err(beacon_failure(other))),
        },
        Action::Deregister { batch } => Reply::Deregister(deregister_validators(db, batch)),
        Action::GetRegistrations => match db.list_registrations() {
            Ok(out) => Reply::Registrations(Ok(out)),
            Err(e) => Reply::Registrations(Err(RegistryError::Database(e))),
        },
        Action::GetValidators => match db.list_validators() {
            Ok(out) => Reply::Validators(Ok(out)),
            Err(e) => Reply::Validators(Err(RegistryError::Database(e))),
        },
        Action::GetValidatorsByPubkeys { pubkeys } => match db.get_validators_by_pubkey(
            pubkeys.as_slice(),
        ) {
            Ok(out) => Reply::Validators(Ok(out)),
            Err(e) => Reply::Validators(Err(RegistryError::Database(e))),
        },
        Action::GetValidatorsByIndices { indices } => match db.get_validators_by_index(indices) {
            Ok(out) => Reply::Validators(Ok(out)),
            Err(e) => Reply::Validators(Err(RegistryError::Database(e))),
        },
        Action::GetValidatorByPubkey { pubkey } => {
            let keys = vec![pubkey];
            proof {
                assert(keys@.drop_last() =~= Seq::<BlsPublicKey>::empty());
                assert(keys@.last() == pubkey);
                assert(db@.entries_by_pubkey(keys@.drop_last()) =~= Seq::<
                    RegistryEntryView,
                >::empty());
            }
            match db.get_validators_by_pubkey(keys.as_slice()) {
                Ok(out) => {
                    assert(entry_views(out@).len() == out@.len());
                    assert(out@.len() > 0 ==> entry_views(out@)[0] == out@[0]@);
                    Reply::Validator(first_or_not_found(out))
                },
                Err(e) => Reply::Validator(Err(RegistryError::Database(e))),
            }
        },
        Action::GetOperators => match db.list_operators() {
            Ok(out) => Reply::Operators(Ok(out)),
            Err(e) => Reply::Operators(Err(RegistryError::Database(e))),
        },
        Action::GetOperator { signer } => {
            let signers = vec![signer];
            proof {
                assert(signers@.drop_last() =~= Seq::<Address>::empty());
                assert(signers@.last() == signer);
                assert(db@.operators_by_signer(signers@.drop_last()) =~= Seq::<
                    crate::records::OperatorView,
                >::empty());
            }
            match db.get_operators_by_signer(signers.as_slice()) {
                Ok(out) => {
                    assert(operator_views(out@).len() == out@.len());
                    assert(out@.len() > 0 ==> operator_views(out@)[0] == out@[0]@);
                    Reply::Operator(first_or_not_found(out))
                },
                Err(e) => Reply::Operator(Err(RegistryError::Database(e))),
            }
        },
        Action::GetLookahead { epoch } => match answer {
            BeaconAnswer::ProposerDuties(duties) => Reply::Lookahead(
                get_lookahead(db, duties.as_slice()),
            ),
            other => Reply::Lookahead(Err(beacon_failure(other))),
        },
    }
}

} // verus!
