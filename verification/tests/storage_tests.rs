use validator_registry::db::memory::InMemoryDb;
use validator_registry::db::types::{
    entries_from_rows, normalize_endpoint, operators_from_rows, parse_address, parse_addresses,
    parse_amounts, parse_pubkey, parse_signature, parse_u256, registrations_from_rows, signed,
    unsigned, OperatorRow, ValidatorRegistrationRow,
};
use validator_registry::db::DbError;
use validator_registry::primitives::{Address, BlsPublicKey, BlsSignature, SyncStateUpdate, U256};
use validator_registry::records::{Deregistration, Operator, Registration, RegistryEntry};

const OP_URL: &str = "https://operator.example/rpc";

fn key(seed: u8) -> BlsPublicKey {
    BlsPublicKey { bytes: [seed; 48] }
}

fn addr(seed: u8) -> Address {
    Address { bytes: [seed; 20] }
}

fn registration(seed: u8, index: u64, operator: u8) -> Registration {
    Registration {
        validator_pubkey: key(seed),
        validator_index: index,
        operator: addr(operator),
        gas_limit: 10_000,
        expiry: 0,
        signature: Some(BlsSignature { bytes: [seed; 96] }),
    }
}

fn operator(seed: u8, url: &str) -> Operator {
    Operator::without_collateral(addr(seed), url.to_string())
}

fn dereg(seed: u8) -> Deregistration {
    Deregistration {
        validator_pubkey: key(seed),
        operator: addr(2),
        signature: BlsSignature { bytes: [seed; 96] },
    }
}

#[test]
fn new_store_is_empty() {
    let db = InMemoryDb::new();
    assert!(db.list_registrations().unwrap().is_empty());
    assert!(db.list_validators().unwrap().is_empty());
    assert!(db.list_operators().unwrap().is_empty());
    assert_eq!(db.get_sync_state().unwrap(), SyncStateUpdate { block_number: 0, epoch: 0, slot: 0 });
}

#[test]
fn entry_needs_registration_and_operator() {
    let mut db = InMemoryDb::new();
    db.register_validators(&[registration(1, 42, 1)]).unwrap();
    assert!(db.get_validators_by_pubkey(&[key(1)]).unwrap().is_empty());
    assert!(db.list_validators().unwrap().is_empty());
    assert_eq!(db.get_registrations_by_pubkey(&[key(1)]).unwrap().len(), 1);

    db.register_operator(operator(1, OP_URL)).unwrap();
    let entries = db.get_validators_by_pubkey(&[key(1)]).unwrap();
    assert_eq!(entries.len(), 1);
    assert_eq!(entries[0].validator_pubkey, key(1));
    assert_eq!(entries[0].operator, addr(1));
    assert_eq!(entries[0].gas_limit, 10_000);
    assert_eq!(entries[0].rpc_endpoint, OP_URL);
}

#[test]
fn discovery_never_returns_a_missing_operator() {
    let mut db = InMemoryDb::new();
    db.register_validators(&[
        registration(1, 1, 1),
        registration(2, 2, 2),
        registration(3, 3, 1),
        registration(4, 4, 3),
    ])
    .unwrap();
    db.register_operator(operator(1, OP_URL)).unwrap();
    let signers: Vec<Address> =
        db.list_operators().unwrap().iter().map(|o| o.signer).collect();
    let by_key = db.get_validators_by_pubkey(&[key(4), key(3), key(2), key(1), key(9)]).unwrap();
    assert_eq!(by_key.len(), 2);
    assert_eq!(by_key[0].validator_pubkey, key(3));
    assert_eq!(by_key[1].validator_pubkey, key(1));
    for entry in by_key.iter().chain(db.list_validators().unwrap().iter()) {
        assert!(signers.contains(&entry.operator));
    }
    let by_index = db.get_validators_by_index(vec![1, 2, 3, 4, 5]).unwrap();
    assert_eq!(by_index.len(), 2);
    for entry in &by_index {
        assert!(signers.contains(&entry.operator));
    }
}

#[test]
fn registering_again_replaces_the_registration() {
    let mut db = InMemoryDb::new();
    db.register_validators(&[registration(1, 42, 1), registration(2, 43, 1)]).unwrap();
    db.register_validators(&[registration(1, 44, 2)]).unwrap();
    let all = db.list_registrations().unwrap();
    assert_eq!(all.len(), 2);
    assert_eq!(all[0].validator_pubkey, key(1));
    assert_eq!(all[0].validator_index, 44);
    assert_eq!(all[0].operator, addr(2));
    assert_eq!(all[1].validator_pubkey, key(2));
}

#[test]
fn stored_index_is_the_index_given() {
    let mut db = InMemoryDb::new();
    db.register_validators(&[registration(1, 42, 1), registration(2, 7, 1)]).unwrap();
    let found = db.get_registrations_by_pubkey(&[key(2), key(1)]).unwrap();
    assert_eq!(found[0].validator_index, 7);
    assert_eq!(found[1].validator_index, 42);
}

#[test]
fn lookup_by_index_follows_the_index() {
    let mut db = InMemoryDb::new();
    db.register_operator(operator(1, OP_URL)).unwrap();
    db.register_validators(&[registration(1, 42, 1), registration(2, 43, 1)]).unwrap();
    let found = db.get_validators_by_index(vec![43, 1, 42]).unwrap();
    assert_eq!(found.len(), 2);
    assert_eq!(found[0].validator_pubkey, key(2));
    assert_eq!(found[1].validator_pubkey, key(1));
}

#[test]
fn deregistering_an_unknown_validator_changes_nothing() {
    let mut db = InMemoryDb::new();
    db.register_operator(operator(1, OP_URL)).unwrap();
    db.register_validators(&[registration(1, 42, 1)]).unwrap();
    db.deregister_validators(&[dereg(9)]).unwrap();
    assert_eq!(db.list_registrations().unwrap().len(), 1);
    assert_eq!(db.list_validators().unwrap().len(), 1);
    assert_eq!(db.list_operators().unwrap().len(), 1);
    assert_eq!(db.get_validators_by_index(vec![42]).unwrap().len(), 1);
}

#[test]
fn deregistering_removes_registration_and_index_but_not_operator() {
    let mut db = InMemoryDb::new();
    db.register_operator(operator(1, OP_URL)).unwrap();
    db.register_validators(&[registration(1, 42, 1), registration(2, 43, 1)]).unwrap();
    db.deregister_validators(&[dereg(1)]).unwrap();
    assert!(db.get_validators_by_pubkey(&[key(1)]).unwrap().is_empty());
    assert!(db.get_validators_by_index(vec![42]).unwrap().is_empty());
    assert_eq!(db.get_validators_by_index(vec![43]).unwrap().len(), 1);
    assert_eq!(db.list_operators().unwrap().len(), 1);
    // the index does not come back with another validator's registration
    db.register_validators(&[registration(1, 50, 1)]).unwrap();
    assert!(db.get_validators_by_index(vec![42]).unwrap().is_empty());
    assert_eq!(db.get_validators_by_index(vec![50]).unwrap()[0].validator_pubkey, key(1));
}

#[test]
fn operators_are_upserted_by_signer() {
    let mut db = InMemoryDb::new();
    db.register_operator(operator(1, "https://old.example/")).unwrap();
    db.register_operator(operator(2, "https://two.example/")).unwrap();
    db.register_operator(operator(1, "https://new.example/")).unwrap();
    let all = db.list_operators().unwrap();
    assert_eq!(all.len(), 2);
    assert_eq!(all[0].signer, addr(1));
    assert_eq!(all[0].rpc_endpoint, "https://new.example/");
    let found = db.get_operators_by_signer(&[addr(2), addr(3), addr(1)]).unwrap();
    assert_eq!(found.len(), 2);
    assert_eq!(found[0].signer, addr(2));
    assert_eq!(found[1].rpc_endpoint, "https://new.example/");
}

#[test]
fn sync_state_is_replaced() {
    let mut db = InMemoryDb::new();
    let state = SyncStateUpdate { block_number: 10, epoch: 2, slot: 64 };
    db.update_sync_state(state).unwrap();
    assert_eq!(db.get_sync_state().unwrap(), state);
}

#[test]
fn transaction_reaches_the_store_on_commit_only() {
    let mut db = InMemoryDb::new();
    let mut tx = db.begin_sync().unwrap();
    tx.register_validators(&[registration(1, 42, 1)]).unwrap();
    tx.register_operator(operator(1, OP_URL)).unwrap();
    assert!(db.list_registrations().unwrap().is_empty());
    assert!(db.list_operators().unwrap().is_empty());
    let state = SyncStateUpdate { block_number: 10, epoch: 2, slot: 64 };
    tx.commit(&mut db, state).unwrap();
    assert_eq!(db.list_validators().unwrap().len(), 1);
    assert_eq!(db.get_sync_state().unwrap(), state);
}

#[test]
fn dropped_transaction_leaves_the_store_alone() {
    let mut db = InMemoryDb::new();
    {
        let mut tx = db.begin_sync().unwrap();
        tx.register_validators(&[registration(1, 42, 1)]).unwrap();
        tx.register_operator(operator(1, OP_URL)).unwrap();
    }
    assert!(db.list_registrations().unwrap().is_empty());
    assert!(db.list_operators().unwrap().is_empty());
    assert_eq!(db.get_sync_state().unwrap().epoch, 0);
}

#[test]
fn only_a_failed_connection_is_retryable() {
    assert!(DbError::Connection.is_retryable());
    assert!(!DbError::TryFromSlice.is_retryable());
    assert!(!DbError::ParseUrl.is_retryable());
    assert!(!DbError::ParseBLSKey.is_retryable());
    assert!(!DbError::ParseUint("invalid U256").is_retryable());
    assert!(!DbError::MissingField("operator.rpc").is_retryable());
}

#[test]
fn kapi_test_keys_api() {
    // the parser writes a trailing slash, so it is given here
    let url = "http://34.88.187.80:30303/";
    assert_eq!(normalize_endpoint(url).as_deref(), Some(url));
}

#[test]
fn endpoint_is_brought_into_normal_form() {
    assert_eq!(
        normalize_endpoint("HTTPS://Rick.com").as_deref(),
        Some("https://rick.com/")
    );
    assert_eq!(normalize_endpoint("not a url"), None);
    assert_eq!(normalize_endpoint(""), None);
    assert_eq!(normalize_endpoint("/relative/path"), None);
}

#[test]
fn stored_bytes_are_parsed_by_length() {
    assert_eq!(parse_address(&[3u8; 20]), Ok(addr(3)));
    assert_eq!(parse_address(&[3u8; 21]), Err(DbError::TryFromSlice));
    assert_eq!(parse_pubkey(&[3u8; 48]), Ok(key(3)));
    assert_eq!(parse_pubkey(&[3u8; 96]), Err(DbError::ParseBLSKey));
    assert_eq!(parse_signature(Some(&vec![5u8; 96])), Some(BlsSignature { bytes: [5; 96] }));
    assert_eq!(parse_signature(Some(&vec![5u8; 95])), None);
    assert_eq!(parse_signature(None), None);
}

#[test]
fn amounts_are_little_endian_and_padded() {
    let mut expected = [0u8; 32];
    expected[0] = 0x10;
    expected[1] = 0x27;
    assert_eq!(parse_u256(&[0x10, 0x27]), Ok(U256 { le_bytes: expected }));
    assert_eq!(parse_u256(&[]), Ok(U256 { le_bytes: [0; 32] }));
    assert_eq!(parse_u256(&[0xff; 32]), Ok(U256 { le_bytes: [0xff; 32] }));
    assert_eq!(parse_u256(&[0u8; 33]), Err(DbError::ParseUint("invalid U256")));
    let mut reversed = [0u8; 32];
    for (i, b) in reversed.iter_mut().enumerate() {
        *b = i as u8;
    }
    assert_eq!(parse_u256(&reversed).unwrap().le_bytes, reversed);
    assert_eq!(U256 { le_bytes: reversed }.to_le_bytes_vec(), reversed.to_vec());
}

#[test]
fn lists_of_stored_bytes_fail_on_the_first_bad_one() {
    assert_eq!(parse_addresses(&vec![vec![1u8; 20], vec![2u8; 20]]).unwrap(), vec![addr(1), addr(2)]);
    assert_eq!(parse_addresses(&vec![vec![1u8; 20], vec![2u8; 2]]), Err(DbError::TryFromSlice));
    assert_eq!(parse_amounts(&vec![vec![1u8], vec![]]).unwrap().len(), 2);
    assert_eq!(
        parse_amounts(&vec![vec![1u8], vec![0u8; 40]]),
        Err(DbError::ParseUint("invalid U256"))
    );
}

#[test]
fn signed_and_unsigned_keep_the_bits() {
    assert_eq!(unsigned(-1), u64::MAX);
    assert_eq!(unsigned(5), 5);
    assert_eq!(signed(u64::MAX), -1);
    assert_eq!(signed(5), 5);
    assert_eq!(unsigned(signed(0x8000_0000_0000_0001)), 0x8000_0000_0000_0001);
}

fn registration_row() -> ValidatorRegistrationRow {
    ValidatorRegistrationRow {
        pubkey: vec![1u8; 48],
        index: 42,
        signature: Some(vec![4u8; 96]),
        expiry: 0,
        gas_limit: 10_000,
        operator: vec![1u8; 20],
        priority: 0,
        source: "none".to_string(),
        rpc: Some("https://Operator.example".to_string()),
    }
}

#[test]
fn registration_row_becomes_registration() {
    let r = Registration::try_from(registration_row()).unwrap();
    assert_eq!(r.validator_pubkey, key(1));
    assert_eq!(r.validator_index, 42);
    assert_eq!(r.operator, addr(1));
    assert_eq!(r.gas_limit, 10_000);
    assert_eq!(r.expiry, 0);
    assert_eq!(r.signature, Some(BlsSignature { bytes: [4; 96] }));

    let mut row = registration_row();
    row.signature = Some(vec![1, 2, 3]);
    assert_eq!(Registration::try_from(row).unwrap().signature, None);
}

#[test]
fn registration_row_errors_come_in_order() {
    let mut row = registration_row();
    row.pubkey = vec![1u8; 47];
    row.operator = vec![];
    assert_eq!(Registration::try_from(row).unwrap_err(), DbError::ParseBLSKey);
    let mut row = registration_row();
    row.operator = vec![1u8; 19];
    assert_eq!(Registration::try_from(row).unwrap_err(), DbError::TryFromSlice);
}

#[test]
fn joined_row_becomes_entry() {
    let entry = RegistryEntry::try_from(registration_row()).unwrap();
    assert_eq!(entry.validator_pubkey, key(1));
    assert_eq!(entry.operator, addr(1));
    assert_eq!(entry.gas_limit, 10_000);
    assert_eq!(entry.rpc_endpoint, "https://operator.example/");
}

#[test]
fn joined_row_errors_come_in_order() {
    let mut row = registration_row();
    row.rpc = None;
    assert_eq!(RegistryEntry::try_from(row).unwrap_err(), DbError::MissingField("operator.rpc"));
    let mut row = registration_row();
    row.rpc = Some("nonsense".to_string());
    assert_eq!(RegistryEntry::try_from(row).unwrap_err(), DbError::ParseUrl);
    let mut row = registration_row();
    row.rpc = None;
    row.operator = vec![];
    assert_eq!(RegistryEntry::try_from(row).unwrap_err(), DbError::TryFromSlice);
    let mut row = registration_row();
    row.pubkey = vec![];
    row.rpc = None;
    assert_eq!(RegistryEntry::try_from(row).unwrap_err(), DbError::ParseBLSKey);
    // with the endpoint handed in, the row's own text is not looked at
    let entry = RegistryEntry::from_row(&registration_row(), Some("x://y".to_string())).unwrap();
    assert_eq!(entry.rpc_endpoint, "x://y");
    assert_eq!(
        RegistryEntry::from_row(&registration_row(), None).unwrap_err(),
        DbError::ParseUrl
    );
}

fn operator_row() -> OperatorRow {
    OperatorRow {
        signer: vec![1u8; 20],
        rpc: "https://operator.example/rpc".to_string(),
        protocol: None,
        source: "none".to_string(),
        collateral_tokens: vec![vec![7u8; 20]],
        collateral_amounts: vec![vec![1u8, 2]],
    }
}

#[test]
fn operator_row_becomes_operator() {
    let op = Operator::try_from(operator_row()).unwrap();
    assert_eq!(op.signer, addr(1));
    assert_eq!(op.rpc_endpoint, "https://operator.example/rpc");
    assert_eq!(op.collateral_tokens, vec![addr(7)]);
    let mut amount = [0u8; 32];
    amount[0] = 1;
    amount[1] = 2;
    assert_eq!(op.collateral_amounts, vec![U256 { le_bytes: amount }]);
}

#[test]
fn operator_row_errors_come_in_order() {
    let mut row = operator_row();
    row.collateral_tokens = vec![vec![1]];
    row.collateral_amounts = vec![vec![0; 40]];
    assert_eq!(Operator::try_from(row).unwrap_err(), DbError::TryFromSlice);
    let mut row = operator_row();
    row.collateral_amounts = vec![vec![0; 40]];
    row.signer = vec![];
    assert_eq!(Operator::try_from(row).unwrap_err(), DbError::ParseUint("invalid U256"));
    let mut row = operator_row();
    row.signer = vec![];
    row.rpc = "nonsense".to_string();
    assert_eq!(Operator::try_from(row).unwrap_err(), DbError::TryFromSlice);
    let mut row = operator_row();
    row.rpc = "nonsense".to_string();
    assert_eq!(Operator::try_from(row).unwrap_err(), DbError::ParseUrl);
    assert_eq!(Operator::from_row(&operator_row(), None).unwrap_err(), DbError::ParseUrl);
}

#[test]
fn rows_read_back_what_was_stored() {
    let r = registration(5, u64::MAX, 6);
    let row = ValidatorRegistrationRow::from_registration(&r);
    assert_eq!(row.index, -1);
    assert_eq!(row.priority, 0);
    assert_eq!(row.source, "none");
    let back = Registration::try_from(row).unwrap();
    assert_eq!(back.validator_pubkey, r.validator_pubkey);
    assert_eq!(back.validator_index, r.validator_index);
    assert_eq!(back.operator, r.operator);
    assert_eq!(back.gas_limit, r.gas_limit);
    assert_eq!(back.expiry, r.expiry);
    assert_eq!(back.signature, r.signature);

    let op = Operator::try_from(operator_row()).unwrap();
    let row = OperatorRow::from_operator(&op);
    assert_eq!(row.collateral_amounts[0].len(), 32);
    assert_eq!(row.collateral_tokens, vec![vec![7u8; 20]]);
    let back = Operator::try_from(row).unwrap();
    assert_eq!(back.signer, op.signer);
    assert_eq!(back.rpc_endpoint, op.rpc_endpoint);
    assert_eq!(back.collateral_tokens, op.collateral_tokens);
    assert_eq!(back.collateral_amounts, op.collateral_amounts);
}

#[test]
fn query_rows_become_records_in_order() {
    let mut second = registration_row();
    second.pubkey = vec![2u8; 48];
    second.index = 43;
    let rows = vec![registration_row(), second];
    let out = registrations_from_rows(&rows).unwrap();
    assert_eq!(out.len(), 2);
    assert_eq!(out[0].validator_index, 42);
    assert_eq!(out[1].validator_pubkey, key(2));
    assert!(registrations_from_rows(&[]).unwrap().is_empty());

    let mut other = operator_row();
    other.signer = vec![2u8; 20];
    let ops = operators_from_rows(&[operator_row(), other]).unwrap();
    assert_eq!(ops.len(), 2);
    assert_eq!(ops[1].signer, addr(2));
}

#[test]
fn first_bad_row_ends_the_conversion() {
    let mut bad_operator = registration_row();
    bad_operator.operator = vec![1u8; 3];
    let mut bad_key = registration_row();
    bad_key.pubkey = vec![];
    let rows = vec![registration_row(), bad_operator, bad_key];
    assert_eq!(registrations_from_rows(&rows).unwrap_err(), DbError::TryFromSlice);

    let mut bad_url = operator_row();
    bad_url.rpc = "nonsense".to_string();
    assert_eq!(operators_from_rows(&[operator_row(), bad_url]).unwrap_err(), DbError::ParseUrl);
}

#[test]
fn joined_rows_without_operator_give_no_entry() {
    let mut orphan = registration_row();
    orphan.pubkey = vec![2u8; 48];
    orphan.rpc = None;
    let mut third = registration_row();
    third.pubkey = vec![3u8; 48];
    let out = entries_from_rows(&[registration_row(), orphan, third]).unwrap();
    assert_eq!(out.len(), 2);
    assert_eq!(out[0].validator_pubkey, key(1));
    assert_eq!(out[1].validator_pubkey, key(3));
    assert_eq!(out[1].rpc_endpoint, "https://operator.example/");

    // a row without operator is left out even where its bytes are malformed
    let mut broken_orphan = registration_row();
    broken_orphan.pubkey = vec![];
    broken_orphan.rpc = None;
    assert_eq!(entries_from_rows(&[broken_orphan, registration_row()]).unwrap().len(), 1);

    let mut bad_url = registration_row();
    bad_url.rpc = Some("nonsense".to_string());
    assert_eq!(entries_from_rows(&[registration_row(), bad_url]).unwrap_err(), DbError::ParseUrl);
}

#[test]
fn index_of_a_replaced_registration_leads_nowhere() {
    let mut db = InMemoryDb::new();
    db.register_operator(operator(1, OP_URL)).unwrap();
    db.register_validators(&[registration(1, 5, 1)]).unwrap();
    db.register_validators(&[registration(1, 6, 1)]).unwrap();
    assert!(db.get_validators_by_index(vec![5]).unwrap().is_empty());
    let found = db.get_validators_by_index(vec![6]).unwrap();
    assert_eq!(found.len(), 1);
    assert_eq!(found[0].validator_pubkey, key(1));
    assert_eq!(db.get_validators_by_index(vec![5, 6, 5]).unwrap().len(), 1);
}

#[test]
fn index_replaced_within_one_call_leads_nowhere() {
    let mut db = InMemoryDb::new();
    db.register_operator(operator(1, OP_URL)).unwrap();
    db.register_validators(&[registration(1, 5, 1), registration(2, 7, 1), registration(1, 6, 1)])
        .unwrap();
    assert!(db.get_validators_by_index(vec![5]).unwrap().is_empty());
    assert_eq!(db.get_validators_by_index(vec![6]).unwrap()[0].validator_pubkey, key(1));
    assert_eq!(db.get_validators_by_index(vec![7]).unwrap()[0].validator_pubkey, key(2));
}

#[test]
fn old_index_stays_gone_after_withdrawal_and_return() {
    let mut db = InMemoryDb::new();
    db.register_operator(operator(1, OP_URL)).unwrap();
    db.register_validators(&[registration(1, 5, 1)]).unwrap();
    db.register_validators(&[registration(1, 6, 1)]).unwrap();
    db.deregister_validators(&[dereg(1)]).unwrap();
    assert!(db.get_validators_by_index(vec![5, 6]).unwrap().is_empty());
    db.register_validators(&[registration(1, 8, 1)]).unwrap();
    assert!(db.get_validators_by_index(vec![5, 6]).unwrap().is_empty());
    assert_eq!(db.get_validators_by_index(vec![8]).unwrap().len(), 1);
}

#[test]
fn index_taken_over_by_another_validator_is_kept() {
    let mut db = InMemoryDb::new();
    db.register_operator(operator(1, OP_URL)).unwrap();
    db.register_validators(&[registration(1, 5, 1), registration(2, 6, 1)]).unwrap();
    // validator 2 moves to index 5, then validator 1 moves away from it
    db.register_validators(&[registration(2, 5, 1)]).unwrap();
    db.register_validators(&[registration(1, 9, 1)]).unwrap();
    assert_eq!(db.get_validators_by_index(vec![5]).unwrap()[0].validator_pubkey, key(2));
    assert!(db.get_validators_by_index(vec![6]).unwrap().is_empty());
    assert_eq!(db.get_validators_by_index(vec![9]).unwrap()[0].validator_pubkey, key(1));
}

#[test]
fn lists_keep_the_order_of_first_arrival() {
    let mut db = InMemoryDb::new();
    db.register_operator(operator(3, "https://three.example/")).unwrap();
    db.register_operator(operator(1, OP_URL)).unwrap();
    db.register_operator(operator(3, "https://three-again.example/")).unwrap();
    db.register_operator(operator(2, "https://two.example/")).unwrap();
    let signers: Vec<Address> = db.list_operators().unwrap().iter().map(|o| o.signer).collect();
    assert_eq!(signers, vec![addr(3), addr(1), addr(2)]);

    db.register_validators(&[registration(4, 40, 1), registration(2, 20, 1), registration(7, 70, 1)])
        .unwrap();
    db.register_validators(&[registration(2, 21, 3), registration(5, 50, 1)]).unwrap();
    let keys: Vec<BlsPublicKey> =
        db.list_registrations().unwrap().iter().map(|r| r.validator_pubkey).collect();
    assert_eq!(keys, vec![key(4), key(2), key(7), key(5)]);

    db.deregister_validators(&[dereg(2), dereg(9)]).unwrap();
    let keys: Vec<BlsPublicKey> =
        db.list_validators().unwrap().iter().map(|e| e.validator_pubkey).collect();
    assert_eq!(keys, vec![key(4), key(7), key(5)]);

    // a validator that comes back goes to the end
    db.register_validators(&[registration(2, 22, 1)]).unwrap();
    let keys: Vec<BlsPublicKey> =
        db.list_registrations().unwrap().iter().map(|r| r.validator_pubkey).collect();
    assert_eq!(keys, vec![key(4), key(7), key(5), key(2)]);
}
