//! Rows of the durable back-end and how they become records.
//!
//! A row holds what the relational store returns: addresses and keys as byte strings,
//! numbers as signed 64-bit integers, endpoints as text.

use vstd::prelude::*;
use crate::db::DbError;
use crate::primitives::{text_view, Address, BlsPublicKey, BlsSignature, FixedBytes, U256};
use crate::records::{Operator, Registration, RegistryEntry, RegistryEntryView};

verus! {

/// A row of the table of operators.
#[derive(Debug)]
pub struct OperatorRow {
    pub signer: Vec<u8>,
    pub rpc: String,
    pub protocol: Option<String>,
    pub source: String,
    pub collateral_tokens: Vec<Vec<u8>>,
    pub collateral_amounts: Vec<Vec<u8>>,
}

/// A row of the table of registrations, with the endpoint of the operator where the
/// query joined the table of operators and found one.
#[derive(Debug)]
pub struct ValidatorRegistrationRow {
    pub pubkey: Vec<u8>,
    pub index: i64,
    pub signature: Option<Vec<u8>>,
    pub expiry: i64,
    pub gas_limit: i64,
    pub operator: Vec<u8>,
    pub priority: i32,
    pub source: String,
    pub rpc: Option<String>,
}

/// The serialization that the URL parser gives an absolute URL, and `None` for a text
/// that is no absolute URL. It depends on the text alone.
pub uninterp spec fn url_normal_form(text: Seq<char>) -> Option<Seq<char>>;

/// Calls `url::Url::parse` and, on success, `Url::as_str`. Nothing is proved of the
/// parser: the contract only gives its result the name `url_normal_form`.
#[verifier::external_body]
fn parse_url(text: &str) -> (out: Option<String>)
    ensures
        text_view(out) == url_normal_form(text@),
{
    match url::Url::parse(text) {
        Ok(url) => Some(String::from(url.as_str())),
        Err(_) => None,
    }
}

/// Brings an endpoint into the serialization of the URL parser; `None` where the text is
/// no absolute URL.
pub fn normalize_endpoint(text: &str) -> (out: Option<String>)
    ensures
        text_view(out) == url_normal_form(text@),
{
    parse_url(text)
}

/// A little-endian magnitude of at most 32 bytes, filled up with zero bytes to 32.
pub open spec fn le_padded(raw: Seq<u8>) -> Seq<u8> {
    Seq::new(
        32,
        |i: int|
            if i < raw.len() {
                raw[i]
            } else {
                0u8
            },
    )
}

/// Calls `alloy::primitives::U256::try_from_le_slice` and, on success, `to_le_bytes`.
/// Believed of them: a slice of more than 32 bytes is refused, any other is read as a
/// little-endian number, whose 32 little-endian bytes are the slice filled up with zeros.
#[verifier::external_body]
fn u256_from_le_slice(raw: &[u8]) -> (out: Option<U256>)
    ensures
        out is Some <==> raw@.len() <= 32,
        out matches Some(amount) ==> amount@ == le_padded(raw@),
{
    match alloy::primitives::U256::try_from_le_slice(raw) {
        Some(amount) => Some(U256 { le_bytes: amount.to_le_bytes::<32>() }),
        None => None,
    }
}

/// Reads an address from a stored byte string: accepted exactly when it has 20 bytes.
pub fn parse_address(value: &[u8]) -> (res: Result<Address, DbError>)
    ensures
        res is Ok <==> value@.len() == 20,
        res matches Ok(address) ==> address@ == value@,
        res matches Err(e) ==> e is TryFromSlice,
{
    match FixedBytes::<20>::from_slice(value) {
        Some(address) => Ok(address),
        None => Err(DbError::TryFromSlice),
    }
}

/// Reads a 256-bit amount from a stored little-endian byte string: accepted exactly when
/// it has at most 32 bytes.
pub fn parse_u256(value: &[u8]) -> (res: Result<U256, DbError>)
    ensures
        res is Ok <==> value@.len() <= 32,
        res matches Ok(amount) ==> amount@ == le_padded(value@),
        res matches Err(e) ==> e matches DbError::ParseUint(what) && what@ == "invalid U256"@,
{
    match u256_from_le_slice(value) {
        Some(amount) => Ok(amount),
        None => Err(DbError::ParseUint("invalid U256")),
    }
}

/// Reads a public key from a stored byte string: accepted exactly when it has 48 bytes.
pub fn parse_pubkey(value: &[u8]) -> (res: Result<BlsPublicKey, DbError>)
    ensures
        res is Ok <==> value@.len() == 48,
        res matches Ok(key) ==> key@ == value@,
        res matches Err(e) ==> e is ParseBLSKey,
{
    match BlsPublicKey::from_bytes(value) {
        Ok(key) => Ok(key),
        Err(_) => Err(DbError::ParseBLSKey),
    }
}

/// Reads a signature from a stored byte string. A missing column and a byte string that
/// does not have 96 bytes both give no signature.
pub fn parse_signature(value: Option<&Vec<u8>>) -> (out: Option<BlsSignature>)
    ensures
        out is Some <==> (value matches Some(raw) && raw@.len() == 96),
        out matches Some(signature) ==> value matches Some(raw) && signature@ == raw@,
{
    match value {
        Some(raw) => FixedBytes::<96>::from_slice(raw.as_slice()),
        None => None,
    }
}

/// Whether each byte string has 20 bytes.
pub open spec fn all_addresses(raw: Seq<Vec<u8>>) -> bool {
    forall|i: int| 0 <= i < raw.len() ==> (#[trigger] raw[i])@.len() == 20
}

/// Whether each byte string has at most 32 bytes.
pub open spec fn all_amounts(raw: Seq<Vec<u8>>) -> bool {
    forall|i: int| 0 <= i < raw.len() ==> (#[trigger] raw[i])@.len() <= 32
}

/// Reads the collateral tokens of a row: accepted exactly when each has 20 bytes.
pub fn parse_addresses(raw: &Vec<Vec<u8>>) -> (res: Result<Vec<Address>, DbError>)
    ensures
        res is Ok <==> all_addresses(raw@),
        res matches Ok(out) ==> out@.len() == raw@.len() && forall|i: int|
            0 <= i < raw@.len() ==> (#[trigger] out@[i])@ == raw@[i]@,
        res matches Err(e) ==> e is TryFromSlice,
{
    let mut out: Vec<Address> = Vec::new();
    let mut i: usize = 0;
    while i < raw.len()
        invariant
            i <= raw@.len(),
            out@.len() == i,
            forall|j: int| 0 <= j < i ==> (#[trigger] raw@[j])@.len() == 20,
            forall|j: int| 0 <= j < i ==> (#[trigger] out@[j])@ == raw@[j]@,
        decreases raw@.len() - i,
    {
        match parse_address(raw[i].as_slice()) {
            Ok(address) => {
                out.push(address);
            },
            Err(e) => {
                assert(raw@[i as int]@.len() != 20);
                return Err(e);
            },
        }
        i = i + 1;
    }
    Ok(out)
}

/// Reads the collateral amounts of a row: accepted exactly when each has at most 32
/// bytes.
pub fn parse_amounts(raw: &Vec<Vec<u8>>) -> (res: Result<Vec<U256>, DbError>)
    ensures
        res is Ok <==> all_amounts(raw@),
        res matches Ok(out) ==> out@.len() == raw@.len() && forall|i: int|
            0 <= i < raw@.len() ==> (#[trigger] out@[i])@ == le_padded(raw@[i]@),
        res matches Err(e) ==> e matches DbError::ParseUint(what) && what@ == "invalid U256"@,
{
    let mut out: Vec<U256> = Vec::new();
    let mut i: usize = 0;
    while i < raw.len()
        invariant
            i <= raw@.len(),
            out@.len() == i,
            forall|j: int| 0 <= j < i ==> (#[trigger] raw@[j])@.len() <= 32,
            forall|j: int| 0 <= j < i ==> (#[trigger] out@[j])@ == le_padded(raw@[j]@),
        decreases raw@.len() - i,
    {
        match parse_u256(raw[i].as_slice()) {
            Ok(amount) => {
                out.push(amount);
            },
            Err(e) => {
                assert(raw@[i as int]@.len() > 32);
                return Err(e);
            },
        }
        i = i + 1;
    }
    Ok(out)
}

/// What is wrong with an operator row, the first of: a collateral token that is no
/// address, a collateral amount that is too long, a signer that is no address, an
/// endpoint that is no URL. `endpoint` is the normal form of the row's endpoint.
pub open spec fn operator_row_error(row: OperatorRow, endpoint: Option<Seq<char>>) -> Option<
    DbError,
> {
    if !all_addresses(row.collateral_tokens@) {
        Some(DbError::TryFromSlice)
    } else if !all_amounts(row.collateral_amounts@) {
        Some(DbError::ParseUint("invalid U256"))
    } else if row.signer@.len() != 20 {
        Some(DbError::TryFromSlice)
    } else if endpoint is None {
        Some(DbError::ParseUrl)
    } else {
        None
    }
}

/// Whether two storage errors are of the same kind.
pub open spec fn same_kind(a: DbError, b: DbError) -> bool {
    match (a, b) {
        (DbError::Connection, DbError::Connection) => true,
        (DbError::TryFromSlice, DbError::TryFromSlice) => true,
        (DbError::ParseUrl, DbError::ParseUrl) => true,
        (DbError::ParseBLSKey, DbError::ParseBLSKey) => true,
        (DbError::ParseUint(x), DbError::ParseUint(y)) => x@ == y@,
        (DbError::MissingField(x), DbError::MissingField(y)) => x@ == y@,
        _ => false,
    }
}

/// A stored signed number read as the unsigned number with the same 64 bits.
pub fn unsigned(value: i64) -> (out: u64)
    ensures
        out == value as u64,
{
    #[verifier::truncate]
    (value as u64)
}

/// What is wrong with a registration row, the first of: a key that is no public key, an
/// operator that is no address.
pub open spec fn registration_row_error(row: ValidatorRegistrationRow) -> Option<DbError> {
    if row.pubkey@.len() != 48 {
        Some(DbError::ParseBLSKey)
    } else if row.operator@.len() != 20 {
        Some(DbError::TryFromSlice)
    } else {
        None
    }
}

/// What is wrong with a joined row, the first of: a key that is no public key, an
/// operator that is no address, no endpoint, an endpoint that is no URL. `endpoint` is
/// the normal form of the row's endpoint.
pub open spec fn entry_row_error(row: ValidatorRegistrationRow, endpoint: Option<Seq<char>>)
    -> Option<DbError> {
    if row.pubkey@.len() != 48 {
        Some(DbError::ParseBLSKey)
    } else if row.operator@.len() != 20 {
        Some(DbError::TryFromSlice)
    } else if row.rpc is None {
        Some(DbError::MissingField("operator.rpc"))
    } else if endpoint is None {
        Some(DbError::ParseUrl)
    } else {
        None
    }
}

/// The normal form of the endpoint of a joined row, where the row has an endpoint and it
/// is a URL.
pub open spec fn row_endpoint(row: ValidatorRegistrationRow) -> Option<Seq<char>> {
    match row.rpc {
        Some(text) => url_normal_form(text@),
        None => None,
    }
}

/// Whether an operator holds what a row holds, with `endpoint` for the normal form of
/// the row's endpoint.
pub open spec fn operator_matches_row(
    operator: Operator,
    row: OperatorRow,
    endpoint: Option<Seq<char>>,
) -> bool {
    &&& operator.signer@ == row.signer@
    &&& Some(operator.rpc_endpoint@) == endpoint
    &&& operator.collateral_tokens@.len() == row.collateral_tokens@.len()
    &&& forall|i: int|
        0 <= i < row.collateral_tokens@.len() ==> (#[trigger] operator.collateral_tokens@[i])@
            == row.collateral_tokens@[i]@
    &&& operator.collateral_amounts@.len() == row.collateral_amounts@.len()
    &&& forall|i: int|
        0 <= i < row.collateral_amounts@.len() ==> (#[trigger] operator.collateral_amounts@[i])@
            == le_padded(row.collateral_amounts@[i]@)
}

/// Whether a registration holds what a row holds: key, operator and numbers, and a
/// signature exactly when the row has one of 96 bytes.
pub open spec fn registration_matches_row(r: Registration, row: ValidatorRegistrationRow) -> bool {
    &&& r.validator_pubkey@ == row.pubkey@
    &&& r.validator_index == row.index as u64
    &&& r.operator@ == row.operator@
    &&& r.gas_limit == row.gas_limit as u64
    &&& r.expiry == row.expiry as u64
    &&& r.signature is Some <==> (row.signature matches Some(raw) && raw@.len() == 96)
    &&& r.signature matches Some(signature) ==> row.signature matches Some(raw) && signature@
        == raw@
}

/// Whether a registry entry holds what a joined row holds, with `endpoint` for the normal
/// form of the row's endpoint.
pub open spec fn entry_matches_row(
    entry: RegistryEntryView,
    row: ValidatorRegistrationRow,
    endpoint: Option<Seq<char>>,
) -> bool {
    &&& entry.validator_pubkey@ == row.pubkey@
    &&& entry.operator@ == row.operator@
    &&& entry.gas_limit == row.gas_limit as u64
    &&& Some(entry.rpc_endpoint) == endpoint
}

/// The registry entry of a joined row that is not refused.
pub open spec fn entry_of_row(row: ValidatorRegistrationRow) -> RegistryEntryView {
    choose|entry: RegistryEntryView| entry_matches_row(entry, row, row_endpoint(row))
}

/// A joined row has at most one registry entry.
pub proof fn lemma_entry_of_row(entry: RegistryEntryView, row: ValidatorRegistrationRow)
    requires
        entry_matches_row(entry, row, row_endpoint(row)),
    ensures
        entry_of_row(row) == entry,
{
    let chosen = entry_of_row(row);
    crate::primitives::lemma_fixed_bytes_ext(chosen.validator_pubkey, entry.validator_pubkey);
    crate::primitives::lemma_fixed_bytes_ext(chosen.operator, entry.operator);
}

/// The registry entries of the joined rows that found an operator, in the order of the
/// rows. A row whose registration has no stored operator gives no entry.
pub open spec fn joined_entries(rows: Seq<ValidatorRegistrationRow>) -> Seq<RegistryEntryView>
    decreases rows.len(),
{
    if rows.len() == 0 {
        Seq::empty()
    } else {
        let before = joined_entries(rows.drop_last());
        if rows.last().rpc is Some {
            before.push(entry_of_row(rows.last()))
        } else {
            before
        }
    }
}

impl Operator {
    /// Makes the operator of a row whose endpoint was already brought into normal form
    /// (`None`: the endpoint is no URL). The row is refused for the first thing wrong
    /// with it; an operator that comes out holds what the row holds.
    pub fn from_row(row: &OperatorRow, endpoint: Option<String>) -> (res: Result<Operator, DbError>)
        ensures
            match res {
                Ok(operator) => {
                    &&& operator_row_error(*row, text_view(endpoint)) is None
                    &&& operator_matches_row(operator, *row, text_view(endpoint))
                    &&& operator.wf() == (row.collateral_tokens@.len()
                        == row.collateral_amounts@.len())
                },
                Err(e) => operator_row_error(*row, text_view(endpoint)) matches Some(expected)
                    && same_kind(e, expected),
            },
    {
        let collateral_tokens = match parse_addresses(&row.collateral_tokens) {
            Ok(tokens) => tokens,
            Err(e) => {
                return Err(e);
            },
        };
        let collateral_amounts = match parse_amounts(&row.collateral_amounts) {
            Ok(amounts) => amounts,
            Err(e) => {
                return Err(e);
            },
        };
        let signer = match parse_address(row.signer.as_slice()) {
            Ok(signer) => signer,
            Err(e) => {
                return Err(e);
            },
        };
        match endpoint {
            Some(rpc_endpoint) => Ok(
                Operator { signer, rpc_endpoint, collateral_tokens, collateral_amounts },
            ),
            None => Err(DbError::ParseUrl),
        }
    }

    /// Makes the operator of a row: `from_row` with the row's endpoint in the normal form
    /// of the URL parser.
    pub fn try_from(row: OperatorRow) -> (res: Result<Operator, DbError>)
        ensures
            match res {
                Ok(operator) => {
                    &&& operator_row_error(row, url_normal_form(row.rpc@)) is None
                    &&& operator_matches_row(operator, row, url_normal_form(row.rpc@))
                    &&& operator.wf() == (row.collateral_tokens@.len()
                        == row.collateral_amounts@.len())
                },
                Err(e) => operator_row_error(row, url_normal_form(row.rpc@)) matches Some(expected)
                    && same_kind(e, expected),
            },
    {
        let endpoint = parse_url(row.rpc.as_str());
        Operator::from_row(&row, endpoint)
    }
}

impl Registration {
    /// Makes the registration of a row. The row is refused for the first thing wrong with
    /// it; a registration that comes out holds what the row holds.
    pub fn from_row(row: &ValidatorRegistrationRow) -> (res: Result<Registration, DbError>)
        ensures
            match res {
                Ok(r) => registration_row_error(*row) is None && registration_matches_row(r, *row),
                Err(e) => registration_row_error(*row) matches Some(expected) && same_kind(
                    e,
                    expected,
                ),
            },
    {
        let validator_pubkey = match parse_pubkey(row.pubkey.as_slice()) {
            Ok(key) => key,
            Err(e) => {
                return Err(e);
            },
        };
        let signature = parse_signature(row.signature.as_ref());
        let operator = match parse_address(row.operator.as_slice()) {
            Ok(operator) => operator,
            Err(e) => {
                return Err(e);
            },
        };
        Ok(
            Registration {
                validator_pubkey,
                validator_index: unsigned(row.index),
                signature,
                operator,
                gas_limit: unsigned(row.gas_limit),
                expiry: unsigned(row.expiry),
            },
        )
    }

    /// Makes the registration of a row, as `from_row` does.
    pub fn try_from(row: ValidatorRegistrationRow) -> (res: Result<Registration, DbError>)
        ensures
            match res {
                Ok(r) => registration_row_error(row) is None && registration_matches_row(r, row),
                Err(e) => registration_row_error(row) matches Some(expected) && same_kind(
                    e,
                    expected,
                ),
            },
    {
        Registration::from_row(&row)
    }
}

impl RegistryEntry {
    /// Makes the entry of a joined row whose endpoint, if it has one, was already brought
    /// into normal form (`None`: no endpoint, or one that is no URL). The row is refused
    /// for the first thing wrong with it; an entry that comes out holds what the row
    /// holds.
    pub fn from_row(row: &ValidatorRegistrationRow, endpoint: Option<String>) -> (res: Result<
        RegistryEntry,
        DbError,
    >)
        ensures
            match res {
                Ok(entry) => entry_row_error(*row, text_view(endpoint)) is None
                    && entry_matches_row(entry@, *row, text_view(endpoint)),
                Err(e) => entry_row_error(*row, text_view(endpoint)) matches Some(expected)
                    && same_kind(e, expected),
            },
    {
        let validator_pubkey = match parse_pubkey(row.pubkey.as_slice()) {
            Ok(key) => key,
            Err(e) => {
                return Err(e);
            },
        };
        let operator = match parse_address(row.operator.as_slice()) {
            Ok(operator) => operator,
            Err(e) => {
                return Err(e);
            },
        };
        if row.rpc.is_none() {
            return Err(DbError::MissingField("operator.rpc"));
        }
        match endpoint {
            Some(rpc_endpoint) => Ok(
                RegistryEntry {
                    validator_pubkey,
                    operator,
                    gas_limit: unsigned(row.gas_limit),
                    rpc_endpoint,
                },
            ),
            None => Err(DbError::ParseUrl),
        }
    }

    /// Makes the entry of a joined row: `from_row` with the row's endpoint in the normal
    /// form of the URL parser.
    pub fn from_joined_row(row: &ValidatorRegistrationRow) -> (res: Result<RegistryEntry, DbError>)
        ensures
            match res {
                Ok(entry) => entry_row_error(*row, row_endpoint(*row)) is None
                    && entry_matches_row(entry@, *row, row_endpoint(*row)),
                Err(e) => entry_row_error(*row, row_endpoint(*row)) matches Some(expected)
                    && same_kind(e, expected),
            },
    {
        let endpoint = match &row.rpc {
            Some(text) => parse_url(text.as_str()),
            None => None,
        };
        RegistryEntry::from_row(row, endpoint)
    }

    /// Makes the entry of a joined row, as `from_joined_row` does.
    pub fn try_from(row: ValidatorRegistrationRow) -> (res: Result<RegistryEntry, DbError>)
        ensures
            match res {
                Ok(entry) => entry_row_error(row, row_endpoint(row)) is None && entry_matches_row(
                    entry@,
                    row,
                    row_endpoint(row),
                ),
                Err(e) => entry_row_error(row, row_endpoint(row)) matches Some(expected)
                    && same_kind(e, expected),
            },
    {
        RegistryEntry::from_joined_row(&row)
    }
}

/// Turns the rows of a query for registrations into registrations, in order. The first
/// row that is refused ends the conversion with its error.
pub fn registrations_from_rows(rows: &[ValidatorRegistrationRow]) -> (res: Result<
    Vec<Registration>,
    DbError,
>)
    ensures
        res is Ok <==> forall|i: int|
            0 <= i < rows@.len() ==> registration_row_error(#[trigger] rows@[i]) is None,
        res matches Ok(out) ==> out@.len() == rows@.len() && forall|i: int|
            0 <= i < rows@.len() ==> registration_matches_row(#[trigger] out@[i], rows@[i]),
        res matches Err(e) ==> exists|i: int|
            0 <= i < rows@.len() && (registration_row_error(#[trigger] rows@[i]) matches Some(
                expected,
            ) && same_kind(e, expected)) && forall|j: int|
                0 <= j < i ==> registration_row_error(#[trigger] rows@[j]) is None,
{
    let mut out: Vec<Registration> = Vec::new();
    let mut i: usize = 0;
    while i < rows.len()
        invariant
            i <= rows@.len(),
            out@.len() == i,
            forall|j: int| 0 <= j < i ==> registration_row_error(#[trigger] rows@[j]) is None,
            forall|j: int| 0 <= j < i ==> registration_matches_row(#[trigger] out@[j], rows@[j]),
        decreases rows@.len() - i,
    {
        match Registration::from_row(&rows[i]) {
            Ok(r) => {
                out.push(r);
            },
            Err(e) => {
                assert(registration_row_error(rows@[i as int]) is Some);
                return Err(e);
            },
        }
        i = i + 1;
    }
    Ok(out)
}

/// Turns the rows of a query for operators into operators, in order. The first row that
/// is refused ends the conversion with its error.
pub fn operators_from_rows(rows: &[OperatorRow]) -> (res: Result<Vec<Operator>, DbError>)
    ensures
        res is Ok <==> forall|i: int|
            0 <= i < rows@.len() ==> operator_row_error(
                #[trigger] rows@[i],
                url_normal_form(rows@[i].rpc@),
            ) is None,
        res matches Ok(out) ==> out@.len() == rows@.len() && forall|i: int|
            0 <= i < rows@.len() ==> operator_matches_row(
                #[trigger] out@[i],
                rows@[i],
                url_normal_form(rows@[i].rpc@),
            ),
        res matches Err(e) ==> exists|i: int|
            0 <= i < rows@.len() && (operator_row_error(
                #[trigger] rows@[i],
                url_normal_form(rows@[i].rpc@),
            ) matches Some(expected) && same_kind(e, expected)) && forall|j: int|
                0 <= j < i ==> operator_row_error(
                    #[trigger] rows@[j],
                    url_normal_form(rows@[j].rpc@),
                ) is None,
{
    let mut out: Vec<Operator> = Vec::new();
    let mut i: usize = 0;
    while i < rows.len()
        invariant
            i <= rows@.len(),
            out@.len() == i,
            forall|j: int|
                0 <= j < i ==> operator_row_error(
                    #[trigger] rows@[j],
                    url_normal_form(rows@[j].rpc@),
                ) is None,
            forall|j: int|
                0 <= j < i ==> operator_matches_row(
                    #[trigger] out@[j],
                    rows@[j],
                    url_normal_form(rows@[j].rpc@),
                ),
        decreases rows@.len() - i,
    {
        let endpoint = parse_url(rows[i].rpc.as_str());
        match Operator::from_row(&rows[i], endpoint) {
            Ok(operator) => {
                out.push(operator);
            },
            Err(e) => {
                assert(operator_row_error(rows@[i as int], url_normal_form(rows@[i as int].rpc@))
                    is Some);
                return Err(e);
            },
        }
        i = i + 1;
    }
    Ok(out)
}

/// Turns the rows of a discovery query into registry entries, in order. A row whose
/// registration found no operator is left out; of the others, the first that is refused
/// ends the conversion with its error.
pub fn entries_from_rows(rows: &[ValidatorRegistrationRow]) -> (res: Result<
    Vec<RegistryEntry>,
    DbError,
>)
    ensures
        res is Ok <==> forall|i: int|
            0 <= i < rows@.len() && (#[trigger] rows@[i]).rpc is Some ==> entry_row_error(
                rows@[i],
                row_endpoint(rows@[i]),
            ) is None,
        res matches Ok(out) ==> crate::db::memory::entry_views(out@) == joined_entries(rows@),
        res matches Err(e) ==> exists|i: int|
            0 <= i < rows@.len() && (#[trigger] rows@[i]).rpc is Some && (entry_row_error(
                rows@[i],
                row_endpoint(rows@[i]),
            ) matches Some(expected) && same_kind(e, expected)),
{
    let mut out: Vec<RegistryEntry> = Vec::new();
    let mut i: usize = 0;
    while i < rows.len()
        invariant
            i <= rows@.len(),
            forall|j: int|
                0 <= j < i && (#[trigger] rows@[j]).rpc is Some ==> entry_row_error(
                    rows@[j],
                    row_endpoint(rows@[j]),
                ) is None,
            crate::db::memory::entry_views(out@) == joined_entries(rows@.take(i as int)),
        decreases rows@.len() - i,
    {
        proof {
            assert(rows@.take(i + 1).drop_last() =~= rows@.take(i as int));
            assert(rows@.take(i + 1).last() == rows@[i as int]);
        }
        if rows[i].rpc.is_some() {
            let ghost before = out@;
            match RegistryEntry::from_joined_row(&rows[i]) {
                Ok(entry) => {
                    proof {
                        lemma_entry_of_row(entry@, rows@[i as int]);
                    }
                    out.push(entry);
                    assert(crate::db::memory::entry_views(out@) =~= crate::db::memory::entry_views(
                        before,
                    ).push(entry@));
                },
                Err(e) => {
                    return Err(e);
                },
            }
        }
        i = i + 1;
    }
    assert(rows@.take(rows@.len() as int) =~= rows@);
    Ok(out)
}

/// An unsigned number stored as the signed number with the same 64 bits.
pub fn signed(value: u64) -> (out: i64)
    ensures
        out == value as i64,
        out as u64 == value,
{
    assert((value as i64) as u64 == value) by (bit_vector);
    #[verifier::truncate]
    (value as i64)
}

impl U256 {
    /// The amount's 32 little-endian bytes as a vector, as they are stored.
    pub fn to_le_bytes_vec(&self) -> (out: Vec<u8>)
        ensures
            out@ == self@,
    {
        let mut out: Vec<u8> = Vec::new();
        let mut i: usize = 0;
        while i < 32
            invariant
                i <= 32,
                out@ == self@.take(i as int),
            decreases 32 - i,
        {
            out.push(self.le_bytes[i]);
            assert(self@.take(i + 1) =~= self@.take(i as int).push(self@[i as int]));
            i = i + 1;
        }
        assert(self@.take(32) =~= self@);
        out
    }
}

impl ValidatorRegistrationRow {
    /// The row that stores a registration: key, operator and signature as their bytes,
    /// the numbers as signed numbers of the same bits, without an endpoint. Reading the
    /// row back gives the registration again.
    pub fn from_registration(r: &Registration) -> (row: ValidatorRegistrationRow)
        ensures
            registration_row_error(row) is None,
            row.pubkey@ == r.validator_pubkey@,
            row.index as u64 == r.validator_index,
            row.expiry as u64 == r.expiry,
            row.gas_limit as u64 == r.gas_limit,
            row.operator@ == r.operator@,
            match r.signature {
                Some(signature) => row.signature matches Some(raw) && raw@ == signature@,
                None => row.signature is None,
            },
            row.priority == 0,
            row.source@ == "none"@,
            row.rpc is None,
    {
        ValidatorRegistrationRow {
            pubkey: r.validator_pubkey.to_vec(),
            index: signed(r.validator_index),
            signature: match r.signature {
                Some(signature) => Some(signature.to_vec()),
                None => None,
            },
            expiry: signed(r.expiry),
            gas_limit: signed(r.gas_limit),
            operator: r.operator.to_vec(),
            priority: 0,
            source: "none".to_owned(),
            rpc: None,
        }
    }
}

impl OperatorRow {
    /// The row that stores an operator: the signer and the collateral tokens as their
    /// bytes, the collateral amounts as their 32 little-endian bytes, the endpoint as
    /// its text.
    pub fn from_operator(operator: &Operator) -> (row: OperatorRow)
        ensures
            row.signer@ == operator.signer@,
            row.rpc@ == operator.rpc_endpoint@,
            row.protocol is None,
            row.source@ == "none"@,
            all_addresses(row.collateral_tokens@),
            all_amounts(row.collateral_amounts@),
            row.collateral_tokens@.len() == operator.collateral_tokens@.len(),
            forall|i: int|
                0 <= i < operator.collateral_tokens@.len() ==> (#[trigger] row.collateral_tokens@[i])@
                    == operator.collateral_tokens@[i]@,
            row.collateral_amounts@.len() == operator.collateral_amounts@.len(),
            forall|i: int|
                0 <= i < operator.collateral_amounts@.len() ==> (
                #[trigger] row.collateral_amounts@[i])@ == operator.collateral_amounts@[i]@,
    {
        let mut tokens: Vec<Vec<u8>> = Vec::new();
        let mut i: usize = 0;
        while i < operator.collateral_tokens.len()
            invariant
                i <= operator.collateral_tokens@.len(),
                tokens@.len() == i,
                forall|j: int|
                    0 <= j < i ==> (#[trigger] tokens@[j])@ == operator.collateral_tokens@[j]@,
            decreases operator.collateral_tokens@.len() - i,
        {
            tokens.push(operator.collateral_tokens[i].to_vec());
            i = i + 1;
        }
        let mut amounts: Vec<Vec<u8>> = Vec::new();
        let mut k: usize = 0;
        while k < operator.collateral_amounts.len()
            invariant
                k <= operator.collateral_amounts@.len(),
                amounts@.len() == k,
                forall|j: int|
                    0 <= j < k ==> (#[trigger] amounts@[j])@ == operator.collateral_amounts@[j]@,
            decreases operator.collateral_amounts@.len() - k,
        {
            amounts.push(operator.collateral_amounts[k].to_le_bytes_vec());
            k = k + 1;
        }
        OperatorRow {
            signer: operator.signer.to_vec(),
            rpc: operator.rpc_endpoint.clone(),
            protocol: None,
            source: "none".to_owned(),
            collateral_tokens: tokens,
            collateral_amounts: amounts,
        }
    }
}

} // verus!
