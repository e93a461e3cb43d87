//! Enrollment directories: what the keys directory answers, and a directory held in
//! memory.

use vstd::prelude::*;
use crate::db::memory::entry_views;
use crate::keyed::KeyedStore;
use crate::primitives::{Address, BlsPublicKey};
use crate::records::{RegistryEntry, RegistryEntryView};
use crate::registry::concat;

verus! {

/// The path of the directory's validator query.
pub const VALIDATORS_PATH: &'static str = "/v1/preconfs/lido-bolt/validators";

/// The gas limit of an entry for which the directory gives none.
pub const DEFAULT_GAS_LIMIT: u64 = 10_000_000;

/// Why a directory could not answer.
#[derive(Debug)]
pub enum SourceError {
    /// The request failed on the way.
    Network,
    /// The directory refused; the text says why.
    Other(String),
}

/// A validator as the keys directory reports it. The endpoint is a URL in its normal
/// form.
#[derive(Debug)]
pub struct ValidatorEntry {
    pub pubkey: BlsPublicKey,
    pub proxy_key: Address,
    pub rpc_url: String,
}

/// What the keys directory answered: the validators it knows among those asked for, or
/// an error.
#[derive(Debug)]
pub enum KeysApiResponse {
    Data(Vec<ValidatorEntry>),
    Error { status_code: u16, message: String, error: String },
}

/// The registry entry that stands for a validator of the keys directory: the proxy key
/// is its operator, and it gets the default gas limit.
pub open spec fn entry_of_validator(v: ValidatorEntry) -> RegistryEntryView {
    RegistryEntryView {
        validator_pubkey: v.pubkey,
        operator: v.proxy_key,
        gas_limit: 10_000_000,
        rpc_endpoint: v.rpc_url@,
    }
}

/// The registry entries that stand for the validators of an answer, in its order.
pub open spec fn entries_of_validators(data: Seq<ValidatorEntry>) -> Seq<RegistryEntryView> {
    Seq::new(data.len(), |i: int| entry_of_validator(data[i]))
}

/// The text of the error for a refusal of the keys directory.
pub open spec fn api_error_text(message: Seq<char>, error: Seq<char>) -> Seq<char> {
    "API error: "@ + message + " ("@ + error + ")"@
}

/// Makes the text of the error for a refusal of the keys directory.
pub fn api_error_message(message: &str, error: &str) -> (out: String)
    ensures
        out@ == api_error_text(message@, error@),
{
    let head = concat("API error: ", message);
    let opened = concat(head.as_str(), " (");
    let named = concat(opened.as_str(), error);
    concat(named.as_str(), ")")
}

/// Turns an answer of the keys directory into registry entries, one for each validator
/// and in the directory's order; a refusal becomes an error with the directory's words.
pub fn validators_from_response(response: KeysApiResponse) -> (res: Result<
    Vec<RegistryEntry>,
    SourceError,
>)
    ensures
        match response {
            KeysApiResponse::Data(data) => res matches Ok(out) && entry_views(out@)
                == entries_of_validators(data@),
            KeysApiResponse::Error { status_code, message, error } => res matches Err(
                SourceError::Other(text),
            ) && text@ == api_error_text(message@, error@),
        },
{
    match response {
        KeysApiResponse::Data(data) => {
            let mut out: Vec<RegistryEntry> = Vec::new();
            let mut i: usize = 0;
            while i < data.len()
                invariant
                    i <= data@.len(),
                    out@.len() == i,
                    forall|j: int| 0 <= j < i ==> (#[trigger] out@[j])@ == entry_of_validator(data@[j]),
                decreases data@.len() - i,
            {
                let v = &data[i];
                out.push(
                    RegistryEntry {
                        validator_pubkey: v.pubkey,
                        operator: v.proxy_key,
                        gas_limit: DEFAULT_GAS_LIMIT,
                        rpc_endpoint: v.rpc_url.clone(),
                    },
                );
                i = i + 1;
            }
            assert(entry_views(out@) =~= entries_of_validators(data@));
            Ok(out)
        },
        KeysApiResponse::Error { status_code, message, error } => Err(
            SourceError::Other(api_error_message(message.as_str(), error.as_str())),
        ),
    }
}

/// A directory held in memory: one entry for each validator it knows.
pub struct MockSource {
    entries: KeyedStore<48, RegistryEntry>,
}

impl MockSource {
    /// The entries of the directory, by validator.
    pub closed spec fn entries(&self) -> Map<BlsPublicKey, RegistryEntry> {
        self.entries.map()
    }

    /// No validator is held twice.
    pub closed spec fn wf(&self) -> bool {
        self.entries.wf()
    }

    /// The entries that the directory has for `keys`, in the order of `keys`.
    pub open spec fn answer(&self, keys: Seq<BlsPublicKey>) -> Seq<RegistryEntryView>
        decreases keys.len(),
    {
        if keys.len() == 0 {
            Seq::empty()
        } else {
            let before = self.answer(keys.drop_last());
            if self.entries().contains_key(keys.last()) {
                before.push(self.entries()[keys.last()]@)
            } else {
                before
            }
        }
    }

    /// A directory that knows no validator.
    pub fn new() -> (out: MockSource)
        ensures
            out.wf(),
            out.entries() == Map::<BlsPublicKey, RegistryEntry>::empty(),
    {
        MockSource { entries: KeyedStore::new() }
    }

    /// Puts an entry into the directory, in place of what its validator had.
    pub fn add_entry(&mut self, entry: RegistryEntry)
        requires
            old(self).wf(),
        ensures
            final(self).wf(),
            final(self).entries() == old(self).entries().insert(entry.validator_pubkey, entry),
    {
        let key = entry.validator_pubkey;
        self.entries.insert(key, entry);
    }

    /// The directory's label.
    pub fn name(&self) -> (label: &'static str)
        ensures
            label@ == "mock"@,
    {
        "mock"
    }

    /// The entries of those of `pubkeys` that the directory knows, in the order of
    /// `pubkeys`. The directory never fails.
    pub fn get_validators(&self, pubkeys: &[BlsPublicKey]) -> (res: Result<
        Vec<RegistryEntry>,
        SourceError,
    >)
        requires
            self.wf(),
        ensures
            res matches Ok(out) && entry_views(out@) == self.answer(pubkeys@),
    {
        let mut out: Vec<RegistryEntry> = Vec::new();
        let mut i: usize = 0;
        while i < pubkeys.len()
            invariant
                self.wf(),
                i <= pubkeys@.len(),
                entry_views(out@) == self.answer(pubkeys@.take(i as int)),
            decreases pubkeys@.len() - i,
        {
            proof {
                assert(pubkeys@.take(i + 1).drop_last() =~= pubkeys@.take(i as int));
                assert(pubkeys@.take(i + 1).last() == pubkeys@[i as int]);
            }
            let ghost before = out@;
            match self.entries.get(&pubkeys[i]) {
                Some(entry) => {
                    let copy = entry.clone();
                    out.push(copy);
                    assert(entry_views(out@) =~= entry_views(before).push(entry@));
                },
                None => {},
            }
            i = i + 1;
        }
        assert(pubkeys@.take(pubkeys@.len() as int) =~= pubkeys@);
        Ok(out)
    }
}

} // verus!
