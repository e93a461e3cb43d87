//! What the HTTP surface decides before it puts an action on the queue, and how it tells
//! a failure of the queue.

use vstd::prelude::*;
use crate::primitives::BlsPublicKey;
use crate::registry::{Action, RegistryError};

verus! {

pub const VALIDATORS_REGISTER_PATH: &'static str = "/registry/v1/validators/register";

pub const VALIDATORS_DEREGISTER_PATH: &'static str = "/registry/v1/validators/deregister";

pub const VALIDATORS_REGISTRATIONS_PATH: &'static str = "/registry/v1/validators/registrations";

pub const DISCOVERY_VALIDATORS_PATH: &'static str = "/registry/v1/discovery/validators";

pub const DISCOVERY_VALIDATOR_PATH: &'static str = "/registry/v1/discovery/validators/{pubkey}";

pub const DISCOVERY_OPERATORS_PATH: &'static str = "/registry/v1/discovery/operators";

pub const DISCOVERY_OPERATOR_PATH: &'static str = "/registry/v1/discovery/operators/{signer}";

pub const DISCOVERY_LOOKAHEAD_PATH: &'static str = "/registry/v1/discovery/lookahead/{epoch}";

/// Seconds after which a request is given up.
pub const MAX_REQUEST_TIMEOUT_SECS: u64 = 30;

/// How the HTTP surface listens and queues.
#[derive(Debug)]
pub struct ApiConfig {
    /// The address to listen on.
    pub listen_addr: String,
    /// How many actions the queue holds.
    pub action_buffer: usize,
    /// Milliseconds that a send waits on a full queue before it fails.
    pub send_timeout_millis: u64,
}

impl Default for ApiConfig {
    fn default() -> (out: ApiConfig)
        ensures
            out.action_buffer == 256,
            out.send_timeout_millis == 2000,
            out.listen_addr@ == "0.0.0.0:8080"@,
    {
        ApiConfig {
            action_buffer: 256,
            send_timeout_millis: 2000,
            listen_addr: "0.0.0.0:8080".to_owned(),
        }
    }
}

/// The filter of a discovery query for validators.
#[derive(Debug)]
pub struct ValidatorFilter {
    pub pubkeys: Option<Vec<BlsPublicKey>>,
    pub indices: Option<Vec<u64>>,
}

impl ValidatorFilter {
    /// The action that answers the query: by keys where only keys are given, by indices
    /// where only indices are given, and every validator otherwise.
    pub fn into_action(self) -> (action: Action)
        ensures
            match (self.pubkeys, self.indices) {
                (Some(pubkeys), None) => action matches Action::GetValidatorsByPubkeys {
                    pubkeys: asked,
                } && asked == pubkeys,
                (None, Some(indices)) => action matches Action::GetValidatorsByIndices {
                    indices: asked,
                } && asked == indices,
                _ => action is GetValidators,
            },
    {
        match (self.pubkeys, self.indices) {
            (Some(pubkeys), None) => Action::GetValidatorsByPubkeys { pubkeys },
            (None, Some(indices)) => Action::GetValidatorsByIndices { indices },
            _ => Action::GetValidators,
        }
    }
}

/// How an action failed between the HTTP surface and the dispatcher.
#[derive(Clone, Copy, Debug, PartialEq, Eq, Structural)]
pub enum QueueFailure {
    /// The queue stayed full for longer than the send timeout, or is closed.
    SendTimedOut,
    /// The reply channel was dropped before an answer came.
    ReplyDropped,
}

/// The error that the caller gets for a failure of the queue. Both kinds are internal
/// errors.
pub fn queue_error(failure: QueueFailure) -> (e: RegistryError)
    ensures
        match failure {
            QueueFailure::SendTimedOut => e is BufferFull,
            QueueFailure::ReplyDropped => e is ResponseChannelDropped,
        },
        crate::registry::spec_status_code(e) == 500,
{
    match failure {
        QueueFailure::SendTimedOut => RegistryError::BufferFull,
        QueueFailure::ReplyDropped => RegistryError::ResponseChannelDropped,
    }
}

} // verus!
