//! Detection of epoch transitions in the stream of payload-attribute events.
//!
//! Beacon nodes announce the payload attributes of a slot several times. The transform
//! keeps the last proposal slot and the last epoch it has announced, drops what does not
//! move past them, and so turns the events into at most one transition per epoch.

use vstd::prelude::*;
use crate::primitives::{PayloadAttribute, SyncStateUpdate};

verus! {

/// The start of a new epoch, as seen in the payload-attribute stream.
#[derive(Clone, Copy, Debug, PartialEq, Eq, Structural)]
pub struct EpochTransition {
    /// Parent block number of the event that showed the transition.
    pub block_number: u64,
    pub epoch: u64,
    /// The slot before the proposal slot of that event.
    pub slot: u64,
}

impl From<EpochTransition> for SyncStateUpdate {
    fn from(transition: EpochTransition) -> (state: SyncStateUpdate) {
        SyncStateUpdate {
            block_number: transition.block_number,
            epoch: transition.epoch,
            slot: transition.slot,
        }
    }
}

impl vstd::std_specs::convert::FromSpecImpl<EpochTransition> for SyncStateUpdate {
    open spec fn obeys_from_spec() -> bool {
        true
    }

    open spec fn from_spec(transition: EpochTransition) -> SyncStateUpdate {
        SyncStateUpdate {
            block_number: transition.block_number,
            epoch: transition.epoch,
            slot: transition.slot,
        }
    }
}

/// What the transform remembers between two events.
pub struct Cursor {
    /// The last epoch announced.
    pub epoch: u64,
    /// The highest proposal slot seen.
    pub proposal_slot: u64,
}

/// The transition that an event stands for, if it stands for one: its slot is the slot
/// before the proposal slot, its epoch that slot's epoch.
pub open spec fn transition_of(pa: PayloadAttribute) -> EpochTransition {
    EpochTransition {
        block_number: pa.parent_block_number,
        epoch: ((pa.proposal_slot - 1) / 32) as u64,
        slot: (pa.proposal_slot - 1) as u64,
    }
}

/// Whether an event is announced as a transition: its proposal slot is past every proposal
/// slot seen, and its epoch past the last epoch announced.
pub open spec fn announces(at: Cursor, pa: PayloadAttribute) -> bool {
    pa.proposal_slot > at.proposal_slot && (pa.proposal_slot - 1) / 32 > at.epoch
}

/// The memory of the transform after one event.
pub open spec fn advance(at: Cursor, pa: PayloadAttribute) -> Cursor {
    Cursor {
        epoch: if announces(at, pa) {
            transition_of(pa).epoch
        } else {
            at.epoch
        },
        proposal_slot: if pa.proposal_slot > at.proposal_slot {
            pa.proposal_slot
        } else {
            at.proposal_slot
        },
    }
}

/// The memory of the transform after a run of events.
pub open spec fn advance_all(at: Cursor, events: Seq<PayloadAttribute>) -> Cursor
    decreases events.len(),
{
    if events.len() == 0 {
        at
    } else {
        advance(advance_all(at, events.drop_last()), events.last())
    }
}

/// The transitions announced over a run of events, in the order of the events.
pub open spec fn announced(at: Cursor, events: Seq<PayloadAttribute>) -> Seq<EpochTransition>
    decreases events.len(),
{
    if events.len() == 0 {
        Seq::empty()
    } else {
        let before = announced(at, events.drop_last());
        if announces(advance_all(at, events.drop_last()), events.last()) {
            before.push(transition_of(events.last()))
        } else {
            before
        }
    }
}

/// What polling the payload-attribute stream gave.
#[derive(Clone, Copy, Debug)]
pub enum Polled {
    /// The stream handed out an event.
    Item(PayloadAttribute),
    /// The stream has ended.
    Closed,
    /// The stream has nothing yet.
    Pending,
}

/// What the transform does after a poll of the payload-attribute stream.
#[derive(Clone, Copy, Debug, PartialEq, Eq, Structural)]
pub enum PollAction {
    /// Hand out this transition.
    Emit(EpochTransition),
    /// The event announced nothing: poll the stream again.
    PollAgain,
    /// Report the end of the stream.
    Finish,
    /// Report that nothing is ready.
    Wait,
}

/// Turns a stream of payload attributes into a stream of epoch transitions.
pub struct EpochTransitionStream<S> {
    /// The last epoch announced.
    pub epoch: u64,
    /// The highest proposal slot seen, by which repeated events are dropped.
    pub proposal_slot: u64,
    /// The payload-attribute stream.
    pub pa_stream: S,
}

impl<S> EpochTransitionStream<S> {
    /// What the transform remembers of the events it was given.
    pub open spec fn cursor(&self) -> Cursor {
        Cursor { epoch: self.epoch, proposal_slot: self.proposal_slot }
    }

    /// Starts the transform on a payload-attribute stream, with nothing seen yet.
    pub fn new(stream: S) -> (out: Self)
        ensures
            out.cursor() == (Cursor { epoch: 0, proposal_slot: 0 }),
            out.pa_stream == stream,
    {
        Self { epoch: 0, proposal_slot: 0, pa_stream: stream }
    }

    /// The last epoch announced.
    pub fn last_epoch(&self) -> (epoch: u64)
        ensures
            epoch == self.cursor().epoch,
    {
        self.epoch
    }

    /// The highest proposal slot seen.
    pub fn last_proposal_slot(&self) -> (slot: u64)
        ensures
            slot == self.cursor().proposal_slot,
    {
        self.proposal_slot
    }

    /// Takes one event: remembers its proposal slot, and hands out its transition exactly
    /// when the event announces one.
    pub fn on_payload_attribute(&mut self, pa: PayloadAttribute) -> (out: Option<EpochTransition>)
        ensures
            final(self).cursor() == advance(old(self).cursor(), pa),
            final(self).pa_stream == old(self).pa_stream,
            out == if announces(old(self).cursor(), pa) {
                Some(transition_of(pa))
            } else {
                None
            },
    {
        if pa.proposal_slot <= self.proposal_slot {
            return None;
        }
        self.proposal_slot = pa.proposal_slot;
        let current_slot: u64 = pa.proposal_slot - 1;
        let epoch: u64 = current_slot / 32;
        if epoch > self.epoch {
            self.epoch = epoch;
            Some(EpochTransition { epoch, slot: current_slot, block_number: pa.parent_block_number })
        } else {
            None
        }
    }

    /// Decides what follows a poll of the payload-attribute stream: an event is taken as
    /// by `on_payload_attribute`, the end of the stream and an empty poll are passed on.
    pub fn on_poll(&mut self, polled: Polled) -> (action: PollAction)
        ensures
            final(self).pa_stream == old(self).pa_stream,
            match polled {
                Polled::Item(pa) => {
                    &&& final(self).cursor() == advance(old(self).cursor(), pa)
                    &&& action == if announces(old(self).cursor(), pa) {
                        PollAction::Emit(transition_of(pa))
                    } else {
                        PollAction::PollAgain
                    }
                },
                Polled::Closed => final(self).cursor() == old(self).cursor() && action
                    == PollAction::Finish,
                Polled::Pending => final(self).cursor() == old(self).cursor() && action
                    == PollAction::Wait,
            },
    {
        match polled {
            Polled::Item(pa) => match self.on_payload_attribute(pa) {
                Some(transition) => PollAction::Emit(transition),
                None => PollAction::PollAgain,
            },
            Polled::Closed => PollAction::Finish,
            Polled::Pending => PollAction::Wait,
        }
    }

    /// Takes a run of events in order and returns the transitions they announce.
    pub fn feed(&mut self, events: &[PayloadAttribute]) -> (out: Vec<EpochTransition>)
        ensures
            final(self).cursor() == advance_all(old(self).cursor(), events@),
            final(self).pa_stream == old(self).pa_stream,
            out@ == announced(old(self).cursor(), events@),
    {
        let mut out: Vec<EpochTransition> = Vec::new();
        let mut i: usize = 0;
        while i < events.len()
            invariant
                i <= events@.len(),
                self.cursor() == advance_all(old(self).cursor(), events@.take(i as int)),
                self.pa_stream == old(self).pa_stream,
                out@ == announced(old(self).cursor(), events@.take(i as int)),
            decreases events@.len() - i,
        {
            proof {
                assert(events@.take(i + 1).drop_last() =~= events@.take(i as int));
                assert(events@.take(i + 1).last() == events@[i as int]);
            }
            match self.on_payload_attribute(events[i]) {
                Some(transition) => {
                    out.push(transition);
                },
                None => {},
            }
            i = i + 1;
        }
        assert(events@.take(events@.len() as int) =~= events@);
        out
    }
}

/// The last epoch announced never goes down, and every transition announced over a run of
/// events has an epoch above the one the run started from and at most the one it ends with.
pub proof fn lemma_announced_bounds(at: Cursor, events: Seq<PayloadAttribute>)
    ensures
        at.epoch <= advance_all(at, events).epoch,
        forall|i: int|
            0 <= i < announced(at, events).len() ==> at.epoch < (#[trigger] announced(
                at,
                events,
            )[i]).epoch <= advance_all(at, events).epoch,
    decreases events.len(),
{
    if events.len() > 0 {
        let before = events.drop_last();
        let mid = advance_all(at, before);
        let all = announced(at, events);
        lemma_announced_bounds(at, before);
        assert forall|i: int| 0 <= i < all.len() implies at.epoch < (#[trigger] all[i]).epoch
            <= advance_all(at, events).epoch by {
            if i < announced(at, before).len() {
                assert(all[i] == announced(at, before)[i]);
            } else {
                assert(all[i] == transition_of(events.last()));
            }
        }
    }
}

/// The epochs of the transitions announced over any run of events are strictly increasing.
pub proof fn lemma_epochs_strictly_increase(at: Cursor, events: Seq<PayloadAttribute>)
    ensures
        forall|i: int, j: int|
            0 <= i < j < announced(at, events).len() ==> (#[trigger] announced(at, events)[i]).epoch
                < (#[trigger] announced(at, events)[j]).epoch,
    decreases events.len(),
{
    if events.len() > 0 {
        let before = events.drop_last();
        let all = announced(at, events);
        lemma_epochs_strictly_increase(at, before);
        lemma_announced_bounds(at, before);
        assert forall|i: int, j: int| 0 <= i < j < all.len() implies (#[trigger] all[i]).epoch < (
        #[trigger] all[j]).epoch by {
            assert(all[i] == announced(at, before)[i]);
            if j < announced(at, before).len() {
                assert(all[j] == announced(at, before)[j]);
            } else {
                assert(all[j] == transition_of(events.last()));
            }
        }
    }
}

/// An event whose proposal slot is not past the highest one seen announces nothing and
/// leaves the transform as it was.
pub proof fn lemma_repeated_event_is_dropped(at: Cursor, pa: PayloadAttribute)
    requires
        pa.proposal_slot <= at.proposal_slot,
    ensures
        !announces(at, pa),
        advance(at, pa) == at,
{
}

} // verus!
