//! The backfill sweeper: one pass over the channel's history that deletes
//! what is already past the retention threshold.
//!
//! The sweep is a state machine. Its driver performs the action the sweep
//! awaits (fetch a page, delete a message) and hands the result back as an
//! event; the sweep decides what comes next.

use vstd::prelude::*;
use crate::clock::Timestamp;
use crate::message::{candidates_of, collect_candidates, ObservedMessage, TargetScope};
use crate::store::{find_last_message, last_message_marker, ChannelSummary, DeleteOutcome};

verus! {

/// Where a sweep stands.
#[derive(Clone, Copy, Debug, PartialEq, Eq)]
pub enum SweepPhase {
    /// Pages of history are being fetched.
    Collecting,
    /// The collected candidates are being deleted, one after the other.
    Deleting,
    /// Nothing is left to do.
    Finished,
}

/// What the driver of a sweep has to do next.
#[derive(Clone, Copy, Debug, PartialEq, Eq)]
pub enum SweepAction {
    /// Fetch the page of history before the message `before`; the most recent
    /// page where `before` is absent.
    FetchPage { before: Option<u64> },
    /// Delete the message `message_id`.
    Delete { message_id: u64 },
    /// Stop: the sweep is over.
    Done,
}

/// What the driver reports back.
#[derive(Debug)]
pub enum SweepEvent {
    /// The fetch returned this page, newest message first.
    PageFetched(Vec<ObservedMessage>),
    /// The fetch failed.
    FetchFailed,
    /// The delete call ended in this way.
    DeleteFinished(DeleteOutcome),
}

/// The state of a sweep as contracts see it.
pub struct SweepState {
    /// The instant captured when the sweep started, in nanoseconds since the
    /// Unix epoch. Every age in the sweep is measured against it.
    pub now: int,
    /// Whether pages are still being fetched.
    pub collecting: bool,
    /// The oldest message of the last page received, if any.
    pub cursor: Option<u64>,
    /// The ids of the deletion candidates found so far, in the order found.
    pub candidates: Seq<u64>,
    /// How many of the candidates have had their delete call.
    pub attempted: nat,
}

impl SweepState {
    /// No delete call is made while pages are fetched, and none beyond the
    /// candidates.
    pub open spec fn well_formed(self) -> bool {
        &&& self.attempted <= self.candidates.len()
        &&& self.collecting ==> self.attempted == 0
    }

    pub open spec fn phase(self) -> SweepPhase {
        if self.collecting {
            SweepPhase::Collecting
        } else if self.attempted < self.candidates.len() {
            SweepPhase::Deleting
        } else {
            SweepPhase::Finished
        }
    }

    /// The action the sweep waits for in this state.
    pub open spec fn awaited(self) -> SweepAction {
        match self.phase() {
            SweepPhase::Collecting => SweepAction::FetchPage { before: self.cursor },
            SweepPhase::Deleting => SweepAction::Delete {
                message_id: self.candidates[self.attempted as int],
            },
            SweepPhase::Finished => SweepAction::Done,
        }
    }

    /// The state of a sweep that starts at the instant `now`. Where the
    /// channel has no history there is nothing to fetch, and the sweep is
    /// finished at once.
    pub open spec fn initial(now: int, has_history: bool) -> SweepState {
        SweepState {
            now,
            collecting: has_history,
            cursor: None,
            candidates: Seq::empty(),
            attempted: 0,
        }
    }

    /// The state after a fetch returned `page`. An empty page ends the
    /// fetching; any other page adds its candidates and moves the cursor to
    /// its last, oldest message.
    pub open spec fn after_page(self, page: Seq<ObservedMessage>) -> SweepState {
        if !self.collecting {
            self
        } else if page.len() == 0 {
            SweepState { collecting: false, ..self }
        } else {
            SweepState {
                cursor: Some(page.last().id),
                candidates: self.candidates + candidates_of(page, self.now),
                ..self
            }
        }
    }

    /// The state after a fetch failed: the fetching ends, and what was
    /// collected so far is deleted.
    pub open spec fn after_fetch_failure(self) -> SweepState {
        SweepState { collecting: false, ..self }
    }

    /// The state after a delete call ended, however it ended: the sweep goes
    /// on with the next candidate.
    pub open spec fn after_delete(self) -> SweepState {
        if self.phase() is Deleting {
            SweepState { attempted: self.attempted + 1, ..self }
        } else {
            self
        }
    }

    /// The state after `event`. An event that the sweep does not wait for
    /// leaves the state as it is.
    pub open spec fn next(self, event: SweepEvent) -> SweepState {
        match event {
            SweepEvent::PageFetched(page) => self.after_page(page@),
            SweepEvent::FetchFailed => self.after_fetch_failure(),
            SweepEvent::DeleteFinished(_) => self.after_delete(),
        }
    }
}

/// One backfill sweep, from the attach event to the last delete call.
pub struct BackfillSweep {
    now: Timestamp,
    collecting: bool,
    cursor: Option<u64>,
    candidates: Vec<u64>,
    attempted: usize,
}

impl View for BackfillSweep {
    type V = SweepState;

    closed spec fn view(&self) -> SweepState {
        SweepState {
            now: self.now@,
            collecting: self.collecting,
            cursor: self.cursor,
            candidates: self.candidates@,
            attempted: self.attempted as nat,
        }
    }
}

impl BackfillSweep {
    #[verifier::type_invariant]
    spec fn inv(self) -> bool {
        self@.well_formed()
    }

    /// Starts a sweep on an attach event. `channels` are the channels of the
    /// community that became available, `now` is the current time, read once.
    /// The sweep fetches history only where the managed channel is among
    /// them and has a last-message marker; else it is finished at once.
    pub fn on_attach(scope: &TargetScope, channels: &Vec<ChannelSummary>, now: Timestamp) -> (sweep:
        BackfillSweep)
        ensures
            sweep@ == SweepState::initial(
                now@,
                last_message_marker(channels@, scope.channel_id) is Some,
            ),
            sweep@.well_formed(),
    {
        let marker = find_last_message(channels, scope.channel_id);
        BackfillSweep {
            now,
            collecting: marker.is_some(),
            cursor: None,
            candidates: Vec::new(),
            attempted: 0,
        }
    }

    /// Where this sweep stands.
    pub fn phase(&self) -> (phase: SweepPhase)
        ensures
            phase == self@.phase(),
    {
        if self.collecting {
            SweepPhase::Collecting
        } else if self.attempted < self.candidates.len() {
            SweepPhase::Deleting
        } else {
            SweepPhase::Finished
        }
    }

    /// The ids of the deletion candidates found so far, in the order found.
    pub fn candidates(&self) -> (ids: &Vec<u64>)
        ensures
            ids@ == self@.candidates,
    {
        &self.candidates
    }

    /// The action this sweep waits for.
    pub fn awaited(&self) -> (action: SweepAction)
        ensures
            action == self@.awaited(),
            self@.well_formed(),
    {
        proof {
            use_type_invariant(self);
        }
        if self.collecting {
            SweepAction::FetchPage { before: self.cursor }
        } else if self.attempted < self.candidates.len() {
            SweepAction::Delete { message_id: self.candidates[self.attempted] }
        } else {
            SweepAction::Done
        }
    }

    /// Takes in what the driver reports and returns the sweep in its next
    /// state, with what the driver has to do next.
    pub fn step(self, event: SweepEvent) -> (next: (BackfillSweep, SweepAction))
        ensures
            next.0@ == self@.next(event),
            next.0@.well_formed(),
            next.1 == next.0@.awaited(),
    {
        proof {
            use_type_invariant(&self);
        }
        let BackfillSweep { now, mut collecting, mut cursor, mut candidates, mut attempted } = self;
        match event {
            SweepEvent::PageFetched(page) => {
                if collecting {
                    if page.len() == 0 {
                        collecting = false;
                    } else {
                        collect_candidates(&page, &now, &mut candidates);
                        cursor = Some(page[page.len() - 1].id);
                    }
                }
            },
            SweepEvent::FetchFailed => {
                collecting = false;
            },
            SweepEvent::DeleteFinished(_) => {
                if !collecting && attempted < candidates.len() {
                    attempted = attempted + 1;
                }
            },
        }
        let sweep = BackfillSweep { now, collecting, cursor, candidates, attempted };
        let action = sweep.awaited();
        (sweep, action)
    }
}

/// The state of a sweep after one delete call for each of `outcomes` has
/// ended, in their order.
pub open spec fn state_after_deletes(state: SweepState, outcomes: Seq<DeleteOutcome>) -> SweepState
    decreases outcomes.len(),
{
    if outcomes.len() == 0 {
        state
    } else {
        state_after_deletes(state, outcomes.drop_last()).next(
            SweepEvent::DeleteFinished(outcomes.last()),
        )
    }
}

/// No outcome of a delete call stops the batch: whether the store deleted the
/// message, did not find it because it was deleted before, or failed, the
/// sweep goes on to the next candidate and never asks for the same delete
/// again.
pub proof fn lemma_delete_outcome_never_stops_the_batch(state: SweepState, outcome: DeleteOutcome)
    requires
        state.well_formed(),
        state.phase() is Deleting,
    ensures
        ({
            let after = state.next(SweepEvent::DeleteFinished(outcome));
            &&& after == state.next(SweepEvent::DeleteFinished(DeleteOutcome::Deleted))
            &&& after.well_formed()
            &&& after.candidates == state.candidates
            &&& after.attempted == state.attempted + 1
            &&& after.awaited() == if state.attempted + 1 < state.candidates.len() {
                SweepAction::Delete { message_id: state.candidates[state.attempted as int + 1] }
            } else {
                SweepAction::Done
            }
        }),
{
}

/// Every candidate gets exactly one delete call, in the order found: once the
/// fetching is over, the sweep asks for the delete of candidate `i` after `i`
/// delete calls have ended, however they ended, and is done after as many
/// calls as there are candidates.
pub proof fn lemma_each_candidate_deleted_once(state: SweepState, outcomes: Seq<DeleteOutcome>)
    requires
        state.well_formed(),
        !state.collecting,
        state.attempted == 0,
        outcomes.len() <= state.candidates.len(),
    ensures
        ({
            let after = state_after_deletes(state, outcomes);
            &&& after.well_formed()
            &&& !after.collecting
            &&& after.candidates == state.candidates
            &&& after.attempted == outcomes.len()
            &&& after.awaited() == if outcomes.len() < state.candidates.len() {
                SweepAction::Delete { message_id: state.candidates[outcomes.len() as int] }
            } else {
                SweepAction::Done
            }
        }),
    decreases outcomes.len(),
{
    if outcomes.len() > 0 {
        lemma_each_candidate_deleted_once(state, outcomes.drop_last());
    }
}

} // verus!
