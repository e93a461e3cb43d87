//! What the beacon gateway computes around its requests: the lookahead of one or two
//! epochs, the retry policy, and the conversion of expected withdrawals.

use vstd::prelude::*;
use crate::primitives::{Address, PayloadAttribute, ProposerDuty};

verus! {

/// Milliseconds between two tries of a query that is retried until it succeeds.
pub const QUERY_BACKOFF_MILLIS: u64 = 500;

/// Milliseconds between two tries to set up an event subscription.
pub const SUBSCRIBE_BACKOFF_MILLIS: u64 = 1000;

/// The kind of request that is retried.
#[derive(Clone, Copy, Debug, PartialEq, Eq, Structural)]
pub enum Retried {
    /// Proposer duties, sync status, validator summaries.
    Query,
    /// Setting up a subscription to an event stream.
    Subscribe,
}

/// What follows one try of a request that is retried until it succeeds.
#[derive(Debug)]
pub enum Attempt<T> {
    /// The try succeeded with this answer.
    Done(T),
    /// The try failed: wait this many milliseconds and try again.
    RetryAfter(u64),
}

/// Decides what follows one try: an answer ends the retrying, a failure never does and
/// asks for the backoff of the request's kind.
pub fn after_attempt<T>(outcome: Option<T>, kind: Retried) -> (next: Attempt<T>)
    ensures
        match outcome {
            Some(answer) => next == Attempt::Done(answer),
            None => next == Attempt::<T>::RetryAfter(
                match kind {
                    Retried::Query => 500u64,
                    Retried::Subscribe => 1000u64,
                },
            ),
        },
{
    match outcome {
        Some(answer) => Attempt::Done(answer),
        None => match kind {
            Retried::Query => Attempt::RetryAfter(QUERY_BACKOFF_MILLIS),
            Retried::Subscribe => Attempt::RetryAfter(SUBSCRIBE_BACKOFF_MILLIS),
        },
    }
}

/// The epochs whose proposer duties make up the lookahead of `epoch`: the epoch itself,
/// and with `extended` the next one after it. `None` where there is no next epoch.
pub fn lookahead_epochs(epoch: u64, extended: bool) -> (out: Option<Vec<u64>>)
    ensures
        out is Some <==> (!extended || epoch < u64::MAX),
        out matches Some(epochs) ==> epochs@ == if extended {
            seq![epoch, (epoch + 1) as u64]
        } else {
            seq![epoch]
        },
{
    if !extended {
        Some(vec![epoch])
    } else if epoch < u64::MAX {
        Some(vec![epoch, epoch + 1])
    } else {
        None
    }
}

/// The extended lookahead of an epoch: its duties, then those of the next epoch.
pub fn extend_lookahead(duties: Vec<ProposerDuty>, next_duties: Vec<ProposerDuty>) -> (out: Vec<
    ProposerDuty,
>)
    ensures
        out@ == duties@ + next_duties@,
{
    let mut out = duties;
    let mut i: usize = 0;
    while i < next_duties.len()
        invariant
            i <= next_duties@.len(),
            out@ == duties@ + next_duties@.take(i as int),
        decreases next_duties@.len() - i,
    {
        out.push(next_duties[i]);
        assert(out@ =~= duties@ + next_duties@.take(i + 1));
        i = i + 1;
    }
    assert(next_duties@.take(next_duties@.len() as int) =~= next_duties@);
    out
}

/// The payload attribute of an event of the beacon node, where the event could be
/// decoded; an event that could not is dropped.
pub fn payload_attribute_of(decoded: Option<(u64, u64)>) -> (out: Option<PayloadAttribute>)
    ensures
        out == match decoded {
            Some((proposal_slot, parent_block_number)) => Some(
                PayloadAttribute { proposal_slot, parent_block_number },
            ),
            None => None,
        },
{
    match decoded {
        Some((proposal_slot, parent_block_number)) => Some(
            PayloadAttribute { proposal_slot, parent_block_number },
        ),
        None => None,
    }
}

/// A withdrawal that the beacon chain expects at the head, as the consensus layer
/// counts it.
#[derive(Clone, Copy, Debug)]
pub struct ExpectedWithdrawal {
    pub index: usize,
    pub validator_index: usize,
    pub address: Address,
    pub amount: u64,
}

/// A withdrawal as the execution layer counts it.
#[derive(Clone, Copy, Debug, PartialEq, Eq)]
pub struct Withdrawal {
    pub index: u64,
    pub validator_index: u64,
    pub address: Address,
    pub amount: u64,
}

/// The execution-layer form of a withdrawal.
pub open spec fn withdrawal_of(w: ExpectedWithdrawal) -> Withdrawal {
    Withdrawal {
        index: w.index as u64,
        validator_index: w.validator_index as u64,
        address: w.address,
        amount: w.amount,
    }
}

/// The execution-layer forms of withdrawals, in order.
pub open spec fn withdrawals_of(expected: Seq<ExpectedWithdrawal>) -> Seq<Withdrawal> {
    Seq::new(expected.len(), |i: int| withdrawal_of(expected[i]))
}

/// Turns the withdrawals expected at the head into their execution-layer form, in order.
pub fn convert_withdrawals(expected: &[ExpectedWithdrawal]) -> (out: Vec<Withdrawal>)
    ensures
        out@ == withdrawals_of(expected@),
{
    let mut out: Vec<Withdrawal> = Vec::with_capacity(expected.len());
    let mut i: usize = 0;
    while i < expected.len()
        invariant
            i <= expected@.len(),
            out@ == withdrawals_of(expected@.take(i as int)),
        decreases expected@.len() - i,
    {
        let w = expected[i];
        out.push(
            Withdrawal {
                index: w.index as u64,
                validator_index: w.validator_index as u64,
                address: w.address,
                amount: w.amount,
            },
        );
        assert(out@ =~= withdrawals_of(expected@.take(i + 1)));
        i = i + 1;
    }
    assert(expected@.take(expected@.len() as int) =~= expected@);
    out
}

/// Whether a byte is an ASCII decimal digit.
pub open spec fn is_digit(b: u8) -> bool {
    48 <= b <= 57
}

/// The number that a string of decimal digits stands for.
pub open spec fn decimal_value(digits: Seq<u8>) -> nat
    decreases digits.len(),
{
    if digits.len() == 0 {
        0
    } else {
        (decimal_value(digits.drop_last()) * 10 + (digits.last() - 48)) as nat
    }
}

/// Whether a byte string is a decimal number: at least one byte, and decimal digits
/// only.
pub open spec fn is_decimal(text: Seq<u8>) -> bool {
    text.len() > 0 && forall|i: int| 0 <= i < text.len() ==> is_digit(#[trigger] text[i])
}

/// A string of decimal digits stands for at least as much as each of its beginnings.
pub proof fn lemma_decimal_value_grows(digits: Seq<u8>, n: int)
    requires
        0 <= n <= digits.len(),
        forall|i: int| 0 <= i < digits.len() ==> is_digit(#[trigger] digits[i]),
    ensures
        decimal_value(digits.take(n)) <= decimal_value(digits),
    decreases digits.len() - n,
{
    if n < digits.len() {
        lemma_decimal_value_grows(digits, n + 1);
        assert(digits.take(n + 1).drop_last() =~= digits.take(n));
        assert(is_digit(digits[n]));
        assert(digits.take(n + 1).last() == digits[n]);
    } else {
        assert(digits.take(n) =~= digits);
    }
}

/// Reads a number that the beacon node wrote as a decimal string: accepted exactly when
/// the string is a decimal number that fits 64 bits.
pub fn parse_decimal(text: &[u8]) -> (out: Option<u64>)
    ensures
        out is Some <==> is_decimal(text@) && decimal_value(text@) <= u64::MAX,
        out matches Some(value) ==> value == decimal_value(text@),
{
    if text.len() == 0 {
        return None;
    }
    let mut value: u64 = 0;
    let mut i: usize = 0;
    while i < text.len()
        invariant
            i <= text@.len(),
            forall|j: int| 0 <= j < i ==> is_digit(#[trigger] text@[j]),
            value == decimal_value(text@.take(i as int)),
        decreases text@.len() - i,
    {
        let b = text[i];
        if b < 48 || b > 57 {
            return None;
        }
        let digit: u64 = (b - 48) as u64;
        proof {
            assert(text@.take(i + 1).drop_last() =~= text@.take(i as int));
            assert(text@.take(i + 1).last() == b);
        }
        if value > (u64::MAX - digit) / 10 {
            proof {
                assert(decimal_value(text@.take(i + 1)) > u64::MAX);
                if is_decimal(text@) {
                    lemma_decimal_value_grows(text@, i + 1);
                }
            }
            return None;
        }
        value = value * 10 + digit;
        i = i + 1;
    }
    assert(text@.take(text@.len() as int) =~= text@);
    Some(value)
}

} // verus!
