use validator_registry::api::{queue_error, ApiConfig, QueueFailure, ValidatorFilter};
use validator_registry::beacon::{
    after_attempt, convert_withdrawals, extend_lookahead, lookahead_epochs, parse_decimal,
    payload_attribute_of, Attempt, ExpectedWithdrawal, Retried, Withdrawal,
};
use validator_registry::chain::EpochTransition;
use validator_registry::db::memory::InMemoryDb;
use validator_registry::primitives::{
    Address, BlsPublicKey, BlsSignature, PayloadAttribute, ProposerDuty, SyncStateUpdate,
    ValidatorSummary,
};
use validator_registry::records::{
    DeregistrationBatch, Operator, Registration, RegistrationBatch, RegistryEntry,
};
use validator_registry::registry::{
    beacon_failure, build_lookahead, deregister_validators, find_entry, first_or_not_found,
    get_lookahead, handle_action, index_map, plan_deregistration, plan_registration,
    register_validators, Action, BeaconAnswer, BeaconClientError, BeaconRequest, RegistryError,
    Reply, NOT_ALL_ACTIVE,
};
use validator_registry::sources::{
    api_error_message, validators_from_response, KeysApiResponse, MockSource, SourceError,
    ValidatorEntry, DEFAULT_GAS_LIMIT,
};
use validator_registry::sync::{
    entry_pubkeys, find_active_index, latch_action, proposer_pubkeys, reconcile, sync_lookahead,
    EpochRange, LatchAction, SyncState, Syncer, SYNC_GAS_LIMIT,
};

const OP_URL: &str = "https://operator.example/rpc";

fn key(seed: u8) -> BlsPublicKey {
    BlsPublicKey { bytes: [seed; 48] }
}

fn sig(seed: u8) -> BlsSignature {
    BlsSignature { bytes: [seed; 96] }
}

fn addr(seed: u8) -> Address {
    Address { bytes: [seed; 20] }
}

fn summary(seed: u8, index: u64) -> ValidatorSummary {
    ValidatorSummary { index, public_key: key(seed) }
}

fn entry(seed: u8, operator: u8, url: &str) -> RegistryEntry {
    RegistryEntry {
        validator_pubkey: key(seed),
        operator: addr(operator),
        gas_limit: 0,
        rpc_endpoint: url.to_string(),
    }
}

fn duty(seed: u8, slot: u64) -> ProposerDuty {
    ProposerDuty { public_key: key(seed), validator_index: seed as u64, slot }
}

fn batch_a() -> RegistrationBatch {
    RegistrationBatch {
        validator_pubkeys: vec![key(0xA)],
        operator: addr(1),
        gas_limit: 10_000,
        expiry: 0,
        signatures: vec![sig(0xA)],
    }
}

fn bad_request(res: Result<(), RegistryError>) -> &'static str {
    match res {
        Err(RegistryError::BadRequest(reason)) => reason,
        other => panic!("not a refused request: {:?}", other),
    }
}

#[test]
fn register_happy_path() {
    let mut db = InMemoryDb::new();
    register_validators(&mut db, batch_a(), &[summary(0xA, 42)]).unwrap();
    // without the operator there is no entry
    assert!(db.get_validators_by_pubkey(&[key(0xA)]).unwrap().is_empty());
    let stored = db.get_registrations_by_pubkey(&[key(0xA)]).unwrap();
    assert_eq!(stored.len(), 1);
    assert_eq!(stored[0].validator_index, 42);
    assert_eq!(stored[0].signature, Some(sig(0xA)));
    assert_eq!(stored[0].gas_limit, 10_000);

    db.register_operator(Operator::without_collateral(addr(1), OP_URL.to_string())).unwrap();
    let entries = db.get_validators_by_pubkey(&[key(0xA)]).unwrap();
    assert_eq!(entries.len(), 1);
    assert_eq!(entries[0].validator_pubkey, key(0xA));
    assert_eq!(entries[0].operator, addr(1));
    assert_eq!(entries[0].gas_limit, 10_000);
    assert_eq!(entries[0].rpc_endpoint, OP_URL);
}

#[test]
fn register_with_inactive_validator_is_refused() {
    let mut db = InMemoryDb::new();
    let res = register_validators(&mut db, batch_a(), &[]);
    assert_eq!(
        bad_request(res),
        "Not all validators are active in the beacon chain, skipping registration"
    );
    assert_eq!(NOT_ALL_ACTIVE, "Not all validators are active in the beacon chain, skipping registration");
    assert!(db.list_registrations().unwrap().is_empty());
}

#[test]
fn register_with_some_inactive_validators_stores_nothing() {
    let mut db = InMemoryDb::new();
    let batch =
        RegistrationBatch::new(vec![key(1), key(2)], addr(1), 1, 0, vec![sig(1), sig(2)]).unwrap();
    let res = register_validators(&mut db, batch, &[summary(1, 5)]);
    assert_eq!(bad_request(res), NOT_ALL_ACTIVE);
    assert!(db.list_registrations().unwrap().is_empty());
}

#[test]
fn register_with_uneven_batch_stores_nothing() {
    let mut db = InMemoryDb::new();
    let batch = RegistrationBatch {
        validator_pubkeys: vec![key(1), key(2)],
        operator: addr(1),
        gas_limit: 1,
        expiry: 0,
        signatures: vec![sig(1)],
    };
    let res = register_validators(&mut db, batch, &[summary(1, 5), summary(2, 6)]);
    assert!(matches!(res, Err(RegistryError::BadRequest(_))));
    assert_ne!(bad_request(res), NOT_ALL_ACTIVE);
    assert!(db.list_registrations().unwrap().is_empty());

    let batch = DeregistrationBatch {
        validator_pubkeys: vec![key(1)],
        operator: addr(1),
        signatures: vec![],
    };
    assert!(matches!(deregister_validators(&mut db, batch), Err(RegistryError::BadRequest(_))));
}

#[test]
fn deregister_unknown_succeeds_and_changes_nothing() {
    let mut db = InMemoryDb::new();
    db.register_operator(Operator::without_collateral(addr(1), OP_URL.to_string())).unwrap();
    register_validators(&mut db, batch_a(), &[summary(0xA, 42)]).unwrap();
    let batch = DeregistrationBatch {
        validator_pubkeys: vec![key(0x58)],
        operator: addr(2),
        signatures: vec![sig(0x58)],
    };
    deregister_validators(&mut db, batch).unwrap();
    assert_eq!(db.list_registrations().unwrap().len(), 1);
    assert_eq!(db.list_validators().unwrap().len(), 1);
    assert_eq!(db.list_operators().unwrap().len(), 1);
}

#[test]
fn deregister_removes_the_validator() {
    let mut db = InMemoryDb::new();
    db.register_operator(Operator::without_collateral(addr(1), OP_URL.to_string())).unwrap();
    register_validators(&mut db, batch_a(), &[summary(0xA, 42)]).unwrap();
    let batch =
        DeregistrationBatch::new(vec![key(0xA)], addr(1), vec![sig(0xA)]).unwrap();
    deregister_validators(&mut db, batch).unwrap();
    assert!(db.list_registrations().unwrap().is_empty());
    assert!(db.list_validators().unwrap().is_empty());
    assert_eq!(db.list_operators().unwrap().len(), 1);
}

#[test]
fn index_map_keeps_the_last_summary_of_a_key() {
    let map = index_map(&[summary(1, 5), summary(2, 6), summary(1, 7)]);
    assert_eq!(map.len(), 2);
    assert_eq!(map.get(&key(1)), Some(&7));
    assert_eq!(map.get(&key(2)), Some(&6));
}

#[test]
fn lookahead_holds_registered_proposers_only() {
    let mut db = InMemoryDb::new();
    db.register_operator(Operator::without_collateral(addr(1), OP_URL.to_string())).unwrap();
    register_validators(&mut db, batch_a(), &[summary(0xA, 42)]).unwrap();
    let duties = [duty(0xA, 160), duty(0xB, 161)];
    let lookahead = get_lookahead(&db, &duties).unwrap();
    assert_eq!(lookahead.len(), 1);
    let at = lookahead.get(&160).unwrap();
    assert_eq!(at.validator_pubkey, key(0xA));
    assert_eq!(at.operator, addr(1));
    assert_eq!(at.gas_limit, 10_000);
    assert_eq!(at.rpc_endpoint, OP_URL);
    assert!(lookahead.get(&161).is_none());
}

#[test]
fn lookahead_puts_a_proposer_under_each_of_its_slots() {
    let entries = [entry(1, 1, OP_URL), entry(2, 2, "https://two.example/")];
    let duties = [duty(1, 10), duty(3, 11), duty(2, 12), duty(1, 13), duty(2, 10)];
    let lookahead = build_lookahead(&duties, &entries);
    assert_eq!(lookahead.len(), 3);
    assert_eq!(lookahead.get(&10).unwrap().validator_pubkey, key(2));
    assert_eq!(lookahead.get(&12).unwrap().validator_pubkey, key(2));
    assert_eq!(lookahead.get(&13).unwrap().validator_pubkey, key(1));
    assert!(build_lookahead(&[], &entries).is_empty());
    assert!(build_lookahead(&duties, &[]).is_empty());
}

#[test]
fn find_entry_gives_the_first_match() {
    let entries = [entry(1, 1, "https://first.example/"), entry(1, 2, "https://second.example/")];
    assert_eq!(find_entry(&entries, &key(1)).unwrap().rpc_endpoint, "https://first.example/");
    assert!(find_entry(&entries, &key(2)).is_none());
}

#[test]
fn single_queries_take_the_first_or_fail() {
    assert_eq!(first_or_not_found(vec![7, 8]).unwrap(), 7);
    assert_eq!(first_or_not_found(vec![7]).unwrap(), 7);
    assert!(matches!(first_or_not_found(Vec::<u8>::new()), Err(RegistryError::NotFound)));
}

#[test]
fn errors_map_to_status_and_message() {
    let cases: Vec<(RegistryError, u16, &str)> = vec![
        (RegistryError::BadRequest(NOT_ALL_ACTIVE), 400,
         "Bad Request: Not all validators are active in the beacon chain, skipping registration"),
        (RegistryError::NotFound, 404, "Not Found"),
        (RegistryError::BufferFull, 500, "Internal Server Error"),
        (RegistryError::ResponseChannelDropped, 500, "Internal Server Error"),
        (RegistryError::Database(validator_registry::db::DbError::Connection), 500, "Internal Server Error"),
        (RegistryError::Beacon(BeaconClientError::Url), 500, "Internal Server Error"),
    ];
    for (error, code, message) in cases {
        assert_eq!(error.status_code(), code);
        assert_eq!(error.message(), message);
        let body = error.error_body();
        assert_eq!(body.code, code);
        assert_eq!(body.message, message);
    }
}

#[test]
fn actions_ask_the_beacon_node_for_what_they_need() {
    match (Action::Register { batch: batch_a() }).beacon_request() {
        BeaconRequest::ActiveValidators { pubkeys } => assert_eq!(pubkeys, vec![key(0xA)]),
        other => panic!("unexpected request {:?}", other),
    }
    match (Action::GetLookahead { epoch: 5 }).beacon_request() {
        BeaconRequest::ProposerDuties { epoch, extended } => {
            assert_eq!(epoch, 5);
            assert!(!extended);
        }
        other => panic!("unexpected request {:?}", other),
    }
    assert!(matches!(Action::GetValidators.beacon_request(), BeaconRequest::Nothing));
    assert!(matches!(
        (Action::GetOperator { signer: addr(1) }).beacon_request(),
        BeaconRequest::Nothing
    ));
}

#[test]
fn dispatcher_handles_every_action() {
    let mut db = InMemoryDb::new();
    db.register_operator(Operator::without_collateral(addr(1), OP_URL.to_string())).unwrap();

    let reply = handle_action(
        &mut db,
        Action::Register { batch: batch_a() },
        BeaconAnswer::ActiveValidators(vec![summary(0xA, 42)]),
    );
    assert!(matches!(reply, Reply::Register(Ok(()))));

    match handle_action(&mut db, Action::GetRegistrations, BeaconAnswer::Nothing) {
        Reply::Registrations(Ok(all)) => {
            assert_eq!(all.len(), 1);
            assert_eq!(all[0].validator_index, 42);
        }
        other => panic!("unexpected reply {:?}", other),
    }
    match handle_action(&mut db, Action::GetValidators, BeaconAnswer::Nothing) {
        Reply::Validators(Ok(all)) => assert_eq!(all.len(), 1),
        other => panic!("unexpected reply {:?}", other),
    }
    match handle_action(
        &mut db,
        Action::GetValidatorsByPubkeys { pubkeys: vec![key(1), key(0xA)] },
        BeaconAnswer::Nothing,
    ) {
        Reply::Validators(Ok(all)) => assert_eq!(all[0].validator_pubkey, key(0xA)),
        other => panic!("unexpected reply {:?}", other),
    }
    match handle_action(
        &mut db,
        Action::GetValidatorsByIndices { indices: vec![42, 43] },
        BeaconAnswer::Nothing,
    ) {
        Reply::Validators(Ok(all)) => assert_eq!(all.len(), 1),
        other => panic!("unexpected reply {:?}", other),
    }
    match handle_action(
        &mut db,
        Action::GetValidatorByPubkey { pubkey: key(0xA) },
        BeaconAnswer::Nothing,
    ) {
        Reply::Validator(Ok(found)) => assert_eq!(found.rpc_endpoint, OP_URL),
        other => panic!("unexpected reply {:?}", other),
    }
    assert!(matches!(
        handle_action(&mut db, Action::GetValidatorByPubkey { pubkey: key(1) }, BeaconAnswer::Nothing),
        Reply::Validator(Err(RegistryError::NotFound))
    ));
    match handle_action(&mut db, Action::GetOperators, BeaconAnswer::Nothing) {
        Reply::Operators(Ok(all)) => assert_eq!(all.len(), 1),
        other => panic!("unexpected reply {:?}", other),
    }
    match handle_action(&mut db, Action::GetOperator { signer: addr(1) }, BeaconAnswer::Nothing) {
        Reply::Operator(Ok(found)) => assert_eq!(found.signer, addr(1)),
        other => panic!("unexpected reply {:?}", other),
    }
    assert!(matches!(
        handle_action(&mut db, Action::GetOperator { signer: addr(2) }, BeaconAnswer::Nothing),
        Reply::Operator(Err(RegistryError::NotFound))
    ));
    match handle_action(
        &mut db,
        Action::GetLookahead { epoch: 5 },
        BeaconAnswer::ProposerDuties(vec![duty(0xA, 160), duty(0xB, 161)]),
    ) {
        Reply::Lookahead(Ok(lookahead)) => {
            assert_eq!(lookahead.len(), 1);
            assert!(lookahead.contains_key(&160));
        }
        other => panic!("unexpected reply {:?}", other),
    }
    let batch = DeregistrationBatch::new(vec![key(0xA)], addr(1), vec![sig(1)]).unwrap();
    assert!(matches!(
        handle_action(&mut db, Action::Deregister { batch }, BeaconAnswer::Nothing),
        Reply::Deregister(Ok(()))
    ));
    assert!(db.list_registrations().unwrap().is_empty());
}

#[test]
fn dispatcher_fails_actions_without_beacon_data() {
    let mut db = InMemoryDb::new();
    assert!(matches!(
        handle_action(&mut db, Action::Register { batch: batch_a() }, BeaconAnswer::Nothing),
        Reply::Register(Err(RegistryError::Beacon(_)))
    ));
    assert!(matches!(
        handle_action(
            &mut db,
            Action::Register { batch: batch_a() },
            BeaconAnswer::Failed(BeaconClientError::Reqwest)
        ),
        Reply::Register(Err(RegistryError::Beacon(BeaconClientError::Reqwest)))
    ));
    assert!(matches!(
        handle_action(
            &mut db,
            Action::GetLookahead { epoch: 1 },
            BeaconAnswer::Failed(BeaconClientError::Inner)
        ),
        Reply::Lookahead(Err(RegistryError::Beacon(BeaconClientError::Inner)))
    ));
    assert!(matches!(
        beacon_failure(BeaconAnswer::Nothing),
        RegistryError::Beacon(BeaconClientError::DataNotFound(_))
    ));
    assert!(db.list_registrations().unwrap().is_empty());
}

#[test]
fn reconcile_drops_inactive_and_deduplicates_operators() {
    let entries = vec![
        entry(1, 1, "https://one.example/"),
        entry(2, 1, "https://one-again.example/"),
        entry(3, 2, "https://two.example/"),
        entry(4, 3, "https://three.example/"),
    ];
    let summaries = [summary(3, 30), summary(1, 10), summary(2, 20), summary(1, 99)];
    let plan = reconcile(&entries, &summaries);
    assert_eq!(plan.registrations.len(), 3);
    let expect = |r: &Registration, seed: u8, index: u64, op: u8| {
        assert_eq!(r.validator_pubkey, key(seed));
        assert_eq!(r.validator_index, index);
        assert_eq!(r.operator, addr(op));
        assert_eq!(r.gas_limit, 10_000);
        assert_eq!(r.gas_limit, SYNC_GAS_LIMIT);
        assert_eq!(r.expiry, 0);
        assert_eq!(r.signature, None);
    };
    expect(&plan.registrations[0], 1, 10, 1);
    expect(&plan.registrations[1], 2, 20, 1);
    expect(&plan.registrations[2], 3, 30, 2);
    assert_eq!(plan.operators.len(), 2);
    assert_eq!(plan.operators[0].signer, addr(1));
    assert_eq!(plan.operators[0].rpc_endpoint, "https://one-again.example/");
    assert_eq!(plan.operators[1].signer, addr(2));
    assert!(plan.operators.iter().all(|o| o.collateral_tokens.is_empty()
        && o.collateral_amounts.is_empty()));
}

#[test]
fn find_active_index_takes_the_first_summary() {
    let summaries = [summary(1, 10), summary(2, 20), summary(1, 99)];
    assert_eq!(find_active_index(&summaries, &key(1)), Some(10));
    assert_eq!(find_active_index(&summaries, &key(2)), Some(20));
    assert_eq!(find_active_index(&summaries, &key(3)), None);
    assert_eq!(find_active_index(&[], &key(3)), None);
}

#[test]
fn sync_lookahead_stores_registrations_and_operators() {
    let mut db = InMemoryDb::new();
    db.register_operator(Operator::without_collateral(addr(9), "https://nine.example/".to_string()))
        .unwrap();
    db.register_operator(Operator::without_collateral(addr(1), "https://old.example/".to_string()))
        .unwrap();
    let entries =
        vec![entry(1, 1, "https://rick.com/"), entry(2, 1, "https://rick.com/"), entry(3, 2, OP_URL)];
    sync_lookahead(&mut db, &entries, &[summary(1, 10), summary(2, 20)]);
    let validators = db.list_validators().unwrap();
    assert_eq!(validators.len(), 2);
    assert_eq!(validators[0].rpc_endpoint, "https://rick.com/");
    assert_eq!(validators[0].gas_limit, 10_000);
    let operators = db.list_operators().unwrap();
    assert_eq!(operators.len(), 2);
    assert_eq!(operators[0].signer, addr(9));
    assert_eq!(operators[1].rpc_endpoint, "https://rick.com/");
    assert!(db.get_validators_by_pubkey(&[key(3)]).unwrap().is_empty());
    assert!(!db.get_validators_by_pubkey(&[key(1)]).unwrap().is_empty());
    assert!(!db.get_operators_by_signer(&[addr(1)]).unwrap().is_empty());
    assert_eq!(db.get_validators_by_index(vec![20]).unwrap()[0].validator_pubkey, key(2));
}

#[test]
fn pubkeys_are_collected_in_order() {
    assert_eq!(proposer_pubkeys(&[duty(3, 1), duty(1, 2)]), vec![key(3), key(1)]);
    assert_eq!(entry_pubkeys(&[entry(2, 1, OP_URL), entry(5, 1, OP_URL)]), vec![key(2), key(5)]);
}

#[test]
fn latch_opens_only_after_the_transition_is_stored() {
    let mut db = InMemoryDb::new();
    let mut syncer = Syncer::new();
    assert!(!syncer.is_syncing());
    assert_eq!(syncer.sync_state(), SyncState::Synced);
    let transition = EpochTransition { epoch: 2, slot: 64, block_number: 10 };
    let range = syncer.begin_transition(transition);
    assert_eq!(range, EpochRange { first: 0, last: 2 });
    assert!(syncer.is_syncing());
    assert_eq!(syncer.read_sync_state(&db), None);
    assert_eq!(latch_action(syncer.sync_state(), true), LatchAction::Wait);

    sync_lookahead(&mut db, &[entry(1, 1, OP_URL)], &[summary(1, 10)]);
    assert!(syncer.finish_transition(&mut db));
    assert!(!syncer.is_syncing());
    assert_eq!(latch_action(syncer.sync_state(), true), LatchAction::Proceed);
    let state = syncer.read_sync_state(&db).unwrap();
    assert_eq!(state, SyncStateUpdate { block_number: 10, epoch: 2, slot: 64 });
    assert!(state.epoch >= transition.epoch);
    assert_eq!(syncer.reconciled_epoch(), 2);
    assert_eq!(syncer.reconciled_block(), 10);
    // the row written while the latch was closed is there for the reader
    assert_eq!(db.list_validators().unwrap().len(), 1);
}

#[test]
fn aborted_transition_keeps_the_latch_closed() {
    let mut db = InMemoryDb::new();
    let mut syncer = Syncer::new();
    syncer.begin_transition(EpochTransition { epoch: 2, slot: 64, block_number: 10 });
    syncer.abort_transition();
    assert!(syncer.is_syncing());
    assert!(!syncer.finish_transition(&mut db));
    assert!(syncer.is_syncing());
    assert_eq!(db.get_sync_state().unwrap().epoch, 0);
    assert_eq!(syncer.reconciled_epoch(), 0);
    let range = syncer.begin_transition(EpochTransition { epoch: 3, slot: 96, block_number: 40 });
    assert_eq!(range, EpochRange { first: 0, last: 3 });
    assert!(syncer.finish_transition(&mut db));
    assert_eq!(db.get_sync_state().unwrap().epoch, 3);
    assert!(!syncer.is_syncing());
}

#[test]
fn syncer_resumes_from_the_stored_state() {
    let mut syncer = Syncer::resume(SyncStateUpdate { block_number: 77, epoch: 9, slot: 300 });
    assert_eq!(syncer.reconciled_epoch(), 9);
    assert_eq!(syncer.reconciled_block(), 77);
    assert!(!syncer.is_syncing());
    syncer.set_last_epoch(11);
    let range = syncer.begin_transition(EpochTransition { epoch: 12, slot: 384, block_number: 80 });
    assert_eq!(range, EpochRange { first: 11, last: 12 });
    assert!(range.contains(11) && range.contains(12) && !range.contains(13) && !range.contains(10));
    assert_eq!(range.next_after(11), Some(12));
    assert_eq!(range.next_after(12), None);
    assert_eq!(syncer.complete_transition(), Some(SyncStateUpdate { block_number: 80, epoch: 12, slot: 384 }));
    assert!(syncer.is_syncing());
    syncer.mark_synced();
    assert!(!syncer.is_syncing());
    assert_eq!(syncer.complete_transition(), None);
}

#[test]
fn latch_decisions() {
    assert_eq!(latch_action(SyncState::Synced, true), LatchAction::Proceed);
    assert_eq!(latch_action(SyncState::Synced, false), LatchAction::Proceed);
    assert_eq!(latch_action(SyncState::Syncing, true), LatchAction::Wait);
    assert_eq!(latch_action(SyncState::Syncing, false), LatchAction::Fail);
}

#[test]
fn retries_never_give_up() {
    assert!(matches!(after_attempt(Some(3), Retried::Query), Attempt::Done(3)));
    assert!(matches!(after_attempt(None::<u8>, Retried::Query), Attempt::RetryAfter(500)));
    assert!(matches!(after_attempt(None::<u8>, Retried::Subscribe), Attempt::RetryAfter(1000)));
}

#[test]
fn extended_lookahead_is_this_epoch_then_the_next() {
    assert_eq!(lookahead_epochs(5, false), Some(vec![5]));
    assert_eq!(lookahead_epochs(5, true), Some(vec![5, 6]));
    assert_eq!(lookahead_epochs(u64::MAX, true), None);
    assert_eq!(lookahead_epochs(u64::MAX, false), Some(vec![u64::MAX]));
    let out = extend_lookahead(vec![duty(1, 160), duty(2, 161)], vec![duty(3, 192)]);
    let slots: Vec<u64> = out.iter().map(|d| d.slot).collect();
    assert_eq!(slots, vec![160, 161, 192]);
    assert_eq!(out[2].public_key, key(3));
}

#[test]
fn malformed_events_are_dropped() {
    assert_eq!(
        payload_attribute_of(Some((65, 10))),
        Some(PayloadAttribute { proposal_slot: 65, parent_block_number: 10 })
    );
    assert_eq!(payload_attribute_of(None), None);
}

#[test]
fn withdrawals_are_converted_in_order() {
    let expected = [
        ExpectedWithdrawal { index: 1, validator_index: 2, address: addr(3), amount: 4 },
        ExpectedWithdrawal { index: 5, validator_index: 6, address: addr(7), amount: 8 },
    ];
    assert_eq!(
        convert_withdrawals(&expected),
        vec![
            Withdrawal { index: 1, validator_index: 2, address: addr(3), amount: 4 },
            Withdrawal { index: 5, validator_index: 6, address: addr(7), amount: 8 },
        ]
    );
}

#[test]
fn directory_answer_becomes_entries() {
    let data = vec![
        ValidatorEntry { pubkey: key(1), proxy_key: addr(1), rpc_url: OP_URL.to_string() },
        ValidatorEntry { pubkey: key(2), proxy_key: addr(2), rpc_url: "https://b.example/".to_string() },
    ];
    let entries = validators_from_response(KeysApiResponse::Data(data)).unwrap();
    assert_eq!(entries.len(), 2);
    assert_eq!(entries[0].validator_pubkey, key(1));
    assert_eq!(entries[0].operator, addr(1));
    assert_eq!(entries[0].gas_limit, 10_000_000);
    assert_eq!(DEFAULT_GAS_LIMIT, 10_000_000);
    assert_eq!(entries[1].rpc_endpoint, "https://b.example/");
}

#[test]
fn directory_refusal_becomes_an_error() {
    let response = KeysApiResponse::Error {
        status_code: 400,
        message: "bad keys".to_string(),
        error: "Bad Request".to_string(),
    };
    match validators_from_response(response) {
        Err(SourceError::Other(text)) => assert_eq!(text, "API error: bad keys (Bad Request)"),
        other => panic!("unexpected {:?}", other),
    }
    assert_eq!(api_error_message("", ""), "API error:  ()");
}

#[test]
fn mock_source_answers_for_known_validators() {
    let mut source = MockSource::new();
    assert_eq!(source.name(), "mock");
    source.add_entry(entry(1, 1, "https://old.example/"));
    source.add_entry(entry(2, 1, OP_URL));
    source.add_entry(entry(1, 1, "https://rick.com/"));
    let out = source.get_validators(&[key(2), key(3), key(1)]).unwrap();
    assert_eq!(out.len(), 2);
    assert_eq!(out[0].validator_pubkey, key(2));
    assert_eq!(out[1].rpc_endpoint, "https://rick.com/");
}

#[test]
fn external_source_sync_without_network() {
    let mut db = InMemoryDb::new();
    let mut syncer = Syncer::new();
    let mut source = MockSource::new();
    let operator = Address::zero();
    let lookahead: Vec<ProposerDuty> = (0u8..4).map(|i| duty(i + 1, 160 + i as u64)).collect();
    for d in &lookahead {
        source.add_entry(RegistryEntry {
            validator_pubkey: d.public_key,
            operator,
            gas_limit: 0,
            rpc_endpoint: "https://rick.com".to_string(),
        });
    }
    syncer.set_last_epoch(4);
    let range = syncer.begin_transition(EpochTransition { epoch: 5, slot: 160, block_number: 1 });
    assert_eq!(range, EpochRange { first: 4, last: 5 });
    let pubkeys = proposer_pubkeys(&lookahead);
    let entries = source.get_validators(&pubkeys).unwrap();
    let active: Vec<ValidatorSummary> =
        entry_pubkeys(&entries).iter().map(|k| ValidatorSummary { index: k.bytes[0] as u64, public_key: *k }).collect();
    sync_lookahead(&mut db, &entries, &active);
    assert!(syncer.finish_transition(&mut db));
    assert!(!db.get_validators_by_pubkey(&[lookahead[0].public_key]).unwrap().is_empty());
    assert!(!db.get_operators_by_signer(&[operator]).unwrap().is_empty());
}

#[test]
fn api_defaults() {
    let config = ApiConfig::default();
    assert_eq!(config.action_buffer, 256);
    assert_eq!(config.send_timeout_millis, 2000);
    assert_eq!(config.listen_addr, "0.0.0.0:8080");
}

#[test]
fn validator_filter_picks_the_query() {
    let by_keys = ValidatorFilter { pubkeys: Some(vec![key(1)]), indices: None };
    assert!(matches!(by_keys.into_action(), Action::GetValidatorsByPubkeys { .. }));
    let by_indices = ValidatorFilter { pubkeys: None, indices: Some(vec![1]) };
    assert!(matches!(by_indices.into_action(), Action::GetValidatorsByIndices { .. }));
    let both = ValidatorFilter { pubkeys: Some(vec![key(1)]), indices: Some(vec![1]) };
    assert!(matches!(both.into_action(), Action::GetValidators));
    let neither = ValidatorFilter { pubkeys: None, indices: None };
    assert!(matches!(neither.into_action(), Action::GetValidators));
}

#[test]
fn queue_failures_are_internal_errors() {
    let full = queue_error(QueueFailure::SendTimedOut);
    assert!(matches!(full, RegistryError::BufferFull));
    assert_eq!(full.status_code(), 500);
    let dropped = queue_error(QueueFailure::ReplyDropped);
    assert!(matches!(dropped, RegistryError::ResponseChannelDropped));
    assert_eq!(dropped.status_code(), 500);
}

#[test]
fn decimal_numbers_are_parsed() {
    assert_eq!(parse_decimal(b"0"), Some(0));
    assert_eq!(parse_decimal(b"42"), Some(42));
    assert_eq!(parse_decimal(b"007"), Some(7));
    assert_eq!(parse_decimal(b"10936976"), Some(10_936_976));
    assert_eq!(parse_decimal(b"18446744073709551615"), Some(u64::MAX));
    assert_eq!(parse_decimal(b"18446744073709551616"), None);
    assert_eq!(parse_decimal(b"99999999999999999999"), None);
    assert_eq!(parse_decimal(b"184467440737095516150"), None);
    assert_eq!(parse_decimal(b""), None);
    assert_eq!(parse_decimal(b"-1"), None);
    assert_eq!(parse_decimal(b"+1"), None);
    assert_eq!(parse_decimal(b"12a"), None);
    assert_eq!(parse_decimal(b" 12"), None);
    assert_eq!(parse_decimal(b"0x10"), None);
}

#[test]
fn mod_test_register() {
    let registration = RegistrationBatch {
        validator_pubkeys: vec![key(0x11)],
        operator: addr(0x22),
        gas_limit: 10_000,
        expiry: 0,
        signatures: vec![],
    };
    let queued = Action::Register { batch: registration.clone() };
    match queued {
        Action::Register { batch } => {
            assert_eq!(registration.digest(), batch.digest());
            assert!(!batch.is_well_formed());
        }
        _ => panic!("unexpected action"),
    }
}

#[test]
fn plans_give_the_rows_to_store() {
    let rows = plan_registration(batch_a(), &[summary(0xA, 42)]).unwrap();
    assert_eq!(rows.len(), 1);
    assert_eq!(rows[0].validator_pubkey, key(0xA));
    assert_eq!(rows[0].validator_index, 42);
    assert!(matches!(
        plan_registration(batch_a(), &[summary(0xB, 42), summary(0xC, 43)]),
        Err(RegistryError::BadRequest(_))
    ));
    // as many active validators as the batch names, but other ones: nothing to store
    assert!(plan_registration(batch_a(), &[summary(0xB, 42)]).unwrap().is_empty());
    let batch = DeregistrationBatch::new(vec![key(1), key(2)], addr(1), vec![sig(1), sig(2)]).unwrap();
    assert_eq!(plan_deregistration(batch).unwrap().len(), 2);
}
