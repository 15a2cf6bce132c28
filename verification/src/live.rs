//! The live expiry scheduler: every message seen in the managed channel is
//! deleted once the retention threshold has passed since it was seen.
//!
//! The scheduler keeps the deletions that are still to come. Its driver tells
//! it of each message and of the time, and makes the delete calls that the
//! scheduler releases.

use vstd::prelude::*;
use crate::clock::{Timestamp, MAX_MESSAGE_AGE_NANOS};
use crate::message::{ObservedMessage, TargetScope};

verus! {

/// A deletion that waits for its time. The wait starts when the message is
/// seen, not when it was created.
#[derive(Clone, Copy, Debug, PartialEq, Eq)]
pub struct PendingDeletion {
    pub message_id: u64,
    pub armed_at: Timestamp,
}

impl PendingDeletion {
    /// The instant from which the message may be deleted.
    pub open spec fn deadline(self) -> int {
        self.armed_at@ + MAX_MESSAGE_AGE_NANOS
    }

    /// Whether the deadline has come at the instant `now`.
    pub open spec fn due(self, now: int) -> bool {
        now >= self.deadline()
    }

    /// The nanoseconds from the instant `now` to the deadline; zero once the
    /// deadline has come.
    pub open spec fn wait(self, now: int) -> int {
        if self.due(now) {
            0
        } else {
            self.deadline() - now
        }
    }

    /// Decides whether the deadline has come at `now`.
    pub fn is_due(&self, now: &Timestamp) -> (due: bool)
        ensures
            due == self.due(now@),
    {
        match now.elapsed_since(&self.armed_at) {
            Some(waited) => waited >= MAX_MESSAGE_AGE_NANOS,
            None => false,
        }
    }

    /// The nanoseconds left at `now` until the deadline.
    pub fn time_left(&self, now: &Timestamp) -> (left: u128)
        ensures
            left == self.wait(now@),
    {
        match now.elapsed_since(&self.armed_at) {
            Some(waited) => if waited >= MAX_MESSAGE_AGE_NANOS {
                0
            } else {
                MAX_MESSAGE_AGE_NANOS - waited
            },
            None => match self.armed_at.elapsed_since(now) {
                Some(ahead) => MAX_MESSAGE_AGE_NANOS + ahead,
                None => MAX_MESSAGE_AGE_NANOS,
            },
        }
    }
}

/// The deletions that wait after `message` was seen at `now`: one more where
/// the message belongs to `scope`, the same as before where it does not.
pub open spec fn armed(
    scope: TargetScope,
    pending: Seq<PendingDeletion>,
    message: ObservedMessage,
    now: Timestamp,
) -> Seq<PendingDeletion> {
    if scope.covers(message) {
        pending.push(PendingDeletion { message_id: message.id, armed_at: now })
    } else {
        pending
    }
}

/// The deletions among `pending` whose deadline has come at the instant
/// `now`, in the order in which they were armed.
pub open spec fn released(pending: Seq<PendingDeletion>, now: int) -> Seq<PendingDeletion> {
    pending.filter(|entry: PendingDeletion| entry.due(now))
}

/// The deletions among `pending` that still wait at the instant `now`, in the
/// order in which they were armed.
pub open spec fn retained(pending: Seq<PendingDeletion>, now: int) -> Seq<PendingDeletion> {
    pending.filter(|entry: PendingDeletion| !entry.due(now))
}

/// The scheduler of one managed channel. Its view is the sequence of pending
/// deletions, in the order in which they were armed.
pub struct LiveScheduler {
    scope: TargetScope,
    pending: Vec<PendingDeletion>,
}

impl View for LiveScheduler {
    type V = Seq<PendingDeletion>;

    closed spec fn view(&self) -> Seq<PendingDeletion> {
        self.pending@
    }
}

impl LiveScheduler {
    /// The channel this scheduler manages.
    pub closed spec fn target(&self) -> TargetScope {
        self.scope
    }

    /// A scheduler for `scope` with nothing pending.
    pub fn new(scope: TargetScope) -> (scheduler: LiveScheduler)
        ensures
            scheduler.target() == scope,
            scheduler@ == Seq::<PendingDeletion>::empty(),
    {
        LiveScheduler { scope, pending: Vec::new() }
    }

    /// The channel this scheduler manages.
    pub fn scope(&self) -> (scope: TargetScope)
        ensures
            scope == self.target(),
    {
        self.scope
    }

    /// How many deletions wait.
    pub fn pending_count(&self) -> (count: usize)
        ensures
            count == self@.len(),
    {
        self.pending.len()
    }

    /// Takes note of a message that the transport delivered at `now`. A
    /// message of the managed channel gets a pending deletion, which is
    /// returned; any other message changes nothing.
    pub fn on_message_observed(&mut self, message: &ObservedMessage, now: Timestamp) -> (scheduled:
        Option<PendingDeletion>)
        ensures
            final(self).target() == old(self).target(),
            final(self)@ == armed(old(self).target(), old(self)@, *message, now),
            scheduled == if old(self).target().covers(*message) {
                Some(PendingDeletion { message_id: message.id, armed_at: now })
            } else {
                None
            },
    {
        if self.scope.contains(message) {
            let entry = PendingDeletion { message_id: message.id, armed_at: now };
            self.pending.push(entry);
            Some(entry)
        } else {
            None
        }
    }

    /// Hands out the deletions whose deadline has come at `now` and keeps the
    /// others. The driver makes one delete call for each one handed out.
    pub fn take_due(&mut self, now: &Timestamp) -> (due: Vec<PendingDeletion>)
        ensures
            final(self).target() == old(self).target(),
            due@ == released(old(self)@, now@),
            final(self)@ == retained(old(self)@, now@),
    {
        let ghost is_due = |entry: PendingDeletion| entry.due(now@);
        let ghost waits = |entry: PendingDeletion| !entry.due(now@);
        let mut due: Vec<PendingDeletion> = Vec::new();
        let mut kept: Vec<PendingDeletion> = Vec::new();
        let mut i: usize = 0;
        assert(self.pending@.take(0).filter(is_due) =~= Seq::<PendingDeletion>::empty());
        assert(self.pending@.take(0).filter(waits) =~= Seq::<PendingDeletion>::empty());
        while i < self.pending.len()
            invariant
                i <= self.pending.len(),
                self.pending == old(self).pending,
                self.scope == old(self).scope,
                is_due == |entry: PendingDeletion| entry.due(now@),
                waits == |entry: PendingDeletion| !entry.due(now@),
                due@ == self.pending@.take(i as int).filter(is_due),
                kept@ == self.pending@.take(i as int).filter(waits),
            decreases self.pending.len() - i,
        {
            let entry = self.pending[i];
            proof {
                let before = self.pending@.take(i as int);
                let upto = self.pending@.take(i + 1);
                assert(upto.drop_last() =~= before);
                assert(upto.last() == self.pending@[i as int]);
                reveal(Seq::filter);
                assert(upto.filter(is_due) == if is_due(entry) {
                    before.filter(is_due).push(entry)
                } else {
                    before.filter(is_due)
                });
                assert(upto.filter(waits) == if waits(entry) {
                    before.filter(waits).push(entry)
                } else {
                    before.filter(waits)
                });
            }
            if entry.is_due(now) {
                due.push(entry);
            } else {
                kept.push(entry);
            }
            i += 1;
        }
        assert(self.pending@.take(self.pending.len() as int) =~= self.pending@);
        self.pending = kept;
        due
    }

    /// The nanoseconds from `now` until the next deadline: zero where a
    /// deletion is due already, `None` where nothing is pending.
    pub fn next_wakeup(&self, now: &Timestamp) -> (wait: Option<u128>)
        ensures
            wait is None <==> self@.len() == 0,
            wait is Some ==> forall|i: int|
                0 <= i < self@.len() ==> wait->0 <= (#[trigger] self@[i]).wait(now@),
            wait is Some ==> exists|i: int|
                0 <= i < self@.len() && wait->0 == (#[trigger] self@[i]).wait(now@),
    {
        if self.pending.len() == 0 {
            return None;
        }
        let mut least: u128 = self.pending[0].time_left(now);
        let mut i: usize = 1;
        while i < self.pending.len()
            invariant
                1 <= i <= self.pending.len(),
                forall|j: int| 0 <= j < i ==> least <= (#[trigger] self.pending@[j]).wait(now@),
                exists|j: int| 0 <= j < i && least == (#[trigger] self.pending@[j]).wait(now@),
            decreases self.pending.len() - i,
        {
            let left = self.pending[i].time_left(now);
            if left < least {
                least = left;
            }
            i += 1;
        }
        Some(least)
    }
}

/// What the driver tells a scheduler, one event at a time.
pub enum LiveEvent {
    /// The transport delivered `message` at the instant `at`.
    Observed { message: ObservedMessage, at: Timestamp },
    /// The driver asked at the instant `at` for the deletions that are due.
    Polled { at: Timestamp },
}

/// One delete call that a scheduler asked for: the pending deletion that it
/// handed out, and the instant of the poll that handed it out.
pub struct Release {
    pub entry: PendingDeletion,
    pub at: int,
}

/// The deletions that wait after a scheduler for `scope`, which started with
/// `start` pending, has taken in `events`.
pub open spec fn pending_after(
    scope: TargetScope,
    start: Seq<PendingDeletion>,
    events: Seq<LiveEvent>,
) -> Seq<PendingDeletion>
    decreases events.len(),
{
    if events.len() == 0 {
        start
    } else {
        let before = pending_after(scope, start, events.drop_last());
        match events.last() {
            LiveEvent::Observed { message, at } => armed(scope, before, message, at),
            LiveEvent::Polled { at } => retained(before, at@),
        }
    }
}

/// The delete calls that the polls among `events` hand out, in their order.
pub open spec fn releases_during(
    scope: TargetScope,
    start: Seq<PendingDeletion>,
    events: Seq<LiveEvent>,
) -> Seq<Release>
    decreases events.len(),
{
    if events.len() == 0 {
        Seq::empty()
    } else {
        let earlier = releases_during(scope, start, events.drop_last());
        let before = pending_after(scope, start, events.drop_last());
        match events.last() {
            LiveEvent::Observed { message, at } => earlier,
            LiveEvent::Polled { at } => earlier + released(before, at@).map_values(
                |entry: PendingDeletion| Release { entry, at: at@ },
            ),
        }
    }
}

/// The deletions that the observations among `events` arm, in their order:
/// one for each message of the managed channel.
pub open spec fn armings_during(scope: TargetScope, events: Seq<LiveEvent>) -> Seq<
    PendingDeletion,
>
    decreases events.len(),
{
    if events.len() == 0 {
        Seq::empty()
    } else {
        let earlier = armings_during(scope, events.drop_last());
        match events.last() {
            LiveEvent::Observed { message, at } => armed(scope, earlier, message, at),
            LiveEvent::Polled { at } => earlier,
        }
    }
}

/// The pending deletions of a sequence of releases.
pub open spec fn entries_of(releases: Seq<Release>) -> Seq<PendingDeletion> {
    releases.map_values(|release: Release| release.entry)
}

/// A message outside the managed channel schedules nothing.
pub proof fn lemma_out_of_scope_schedules_nothing(
    scope: TargetScope,
    pending: Seq<PendingDeletion>,
    message: ObservedMessage,
    now: Timestamp,
)
    requires
        message.community_id != Some(scope.community_id) || message.channel_id
            != scope.channel_id,
    ensures
        armed(scope, pending, message, now) == pending,
{
}

/// A message of the managed channel that is seen at `seen` is handed out by
/// no poll before thirty minutes have passed, and by the first poll from then
/// on: that poll hands it out once, behind what was armed before it, and
/// keeps it no longer, so that no later poll hands it out again.
pub proof fn lemma_observed_message_released_at_deadline(
    scope: TargetScope,
    pending: Seq<PendingDeletion>,
    message: ObservedMessage,
    seen: Timestamp,
    poll: int,
)
    requires
        scope.covers(message),
    ensures
        ({
            let entry = PendingDeletion { message_id: message.id, armed_at: seen };
            let waiting = armed(scope, pending, message, seen);
            if poll >= seen@ + MAX_MESSAGE_AGE_NANOS {
                &&& released(waiting, poll) == released(pending, poll).push(entry)
                &&& retained(waiting, poll) == retained(pending, poll)
            } else {
                &&& released(waiting, poll) == released(pending, poll)
                &&& retained(waiting, poll) == retained(pending, poll).push(entry)
            }
        }),
{
    let entry = PendingDeletion { message_id: message.id, armed_at: seen };
    let waiting = pending.push(entry);
    assert(waiting.drop_last() =~= pending);
    reveal(Seq::filter);
}

/// A poll parts the pending deletions in two: each is either handed out or
/// kept, none is lost and none is doubled.
pub proof fn lemma_poll_partitions(pending: Seq<PendingDeletion>, now: int)
    ensures
        pending.to_multiset() == released(pending, now).to_multiset().add(
            retained(pending, now).to_multiset(),
        ),
        forall|i: int|
            0 <= i < released(pending, now).len() ==> (#[trigger] released(pending, now)[i]).due(
                now,
            ),
        forall|i: int|
            0 <= i < retained(pending, now).len() ==> !(#[trigger] retained(pending, now)[i]).due(
                now,
            ),
    decreases pending.len(),
{
    broadcast use vstd::seq_lib::group_filter_ensures;
    broadcast use vstd::multiset::group_multiset_axioms;

    reveal(Seq::filter);
    if pending.len() == 0 {
        pending.to_multiset_ensures();
        assert(pending.to_multiset() =~= released(pending, now).to_multiset().add(
            retained(pending, now).to_multiset(),
        ));
    } else {
        let front = pending.drop_last();
        let last = pending.last();
        lemma_poll_partitions(front, now);
        assert(front.push(last) =~= pending);
        front.to_multiset_ensures();
        released(front, now).to_multiset_ensures();
        retained(front, now).to_multiset_ensures();
        assert(pending.to_multiset() =~= released(pending, now).to_multiset().add(
            retained(pending, now).to_multiset(),
        ));
    }
}

/// Every delete call comes at or after its deadline: thirty minutes or more
/// after the message was seen.
pub proof fn lemma_no_release_before_deadline(
    scope: TargetScope,
    start: Seq<PendingDeletion>,
    events: Seq<LiveEvent>,
)
    ensures
        forall|i: int|
            0 <= i < releases_during(scope, start, events).len() ==> (#[trigger] releases_during(
                scope,
                start,
                events,
            )[i]).at >= releases_during(scope, start, events)[i].entry.armed_at@
                + MAX_MESSAGE_AGE_NANOS,
    decreases events.len(),
{
    if events.len() > 0 {
        lemma_no_release_before_deadline(scope, start, events.drop_last());
        let before = pending_after(scope, start, events.drop_last());
        match events.last() {
            LiveEvent::Observed { message, at } => {},
            LiveEvent::Polled { at } => {
                lemma_poll_partitions(before, at@);
                let earlier = releases_during(scope, start, events.drop_last());
                let handed = released(before, at@);
                let all = releases_during(scope, start, events);
                assert forall|i: int| 0 <= i < all.len() implies (#[trigger] all[i]).at
                    >= all[i].entry.armed_at@ + MAX_MESSAGE_AGE_NANOS by {
                    if i >= earlier.len() {
                        assert(all[i].entry == handed[i - earlier.len()]);
                        assert(handed[i - earlier.len()].due(at@));
                    } else {
                        assert(all[i] == earlier[i]);
                    }
                }
            },
        }
    }
}

/// Exactly one delete call for each pending deletion: over any sequence of
/// events, what waited at the start and what the observations armed is what
/// the polls handed out and what still waits, each as often as the other.
pub proof fn lemma_each_pending_released_once(
    scope: TargetScope,
    start: Seq<PendingDeletion>,
    events: Seq<LiveEvent>,
)
    ensures
        start.to_multiset().add(armings_during(scope, events).to_multiset()) == entries_of(
            releases_during(scope, start, events),
        ).to_multiset().add(pending_after(scope, start, events).to_multiset()),
    decreases events.len(),
{
    broadcast use vstd::multiset::group_multiset_axioms;

    let armings = armings_during(scope, events);
    let releases = releases_during(scope, start, events);
    let pending = pending_after(scope, start, events);
    if events.len() == 0 {
        armings.to_multiset_ensures();
        entries_of(releases).to_multiset_ensures();
        assert(start.to_multiset().add(armings.to_multiset()) =~= entries_of(
            releases,
        ).to_multiset().add(pending.to_multiset()));
    } else {
        let earlier = events.drop_last();
        lemma_each_pending_released_once(scope, start, earlier);
        let armings_before = armings_during(scope, earlier);
        let releases_before = releases_during(scope, start, earlier);
        let before = pending_after(scope, start, earlier);
        let s0 = start.to_multiset();
        match events.last() {
            LiveEvent::Observed { message, at } => {
                armings_before.to_multiset_ensures();
                before.to_multiset_ensures();
                if scope.covers(message) {
                    let entry = PendingDeletion { message_id: message.id, armed_at: at };
                    let out = entries_of(releases).to_multiset();
                    assert(s0.add(armings_before.to_multiset()).insert(entry) =~= s0.add(
                        armings.to_multiset(),
                    ));
                    assert(out.add(before.to_multiset()).insert(entry) =~= out.add(
                        pending.to_multiset(),
                    ));
                }
            },
            LiveEvent::Polled { at } => {
                lemma_poll_partitions(before, at@);
                let handed = released(before, at@);
                assert(entries_of(releases) =~= entries_of(releases_before) + handed);
                vstd::seq_lib::lemma_multiset_commutative(entries_of(releases_before), handed);
                let out = entries_of(releases_before).to_multiset();
                let now_out = handed.to_multiset();
                let kept = pending.to_multiset();
                assert(out.add(now_out).add(kept) =~= out.add(now_out.add(kept)));
            },
        }
    }
}

/// After a poll nothing waits whose deadline has come.
pub proof fn lemma_poll_leaves_nothing_due(
    scope: TargetScope,
    start: Seq<PendingDeletion>,
    events: Seq<LiveEvent>,
    now: Timestamp,
)
    ensures
        forall|i: int|
            0 <= i < pending_after(
                scope,
                start,
                events.push(LiveEvent::Polled { at: now }),
            ).len() ==> (#[trigger] pending_after(
                scope,
                start,
                events.push(LiveEvent::Polled { at: now }),
            )[i]).armed_at@ + MAX_MESSAGE_AGE_NANOS > now@,
{
    let all = events.push(LiveEvent::Polled { at: now });
    assert(all.drop_last() =~= events);
    lemma_poll_partitions(pending_after(scope, start, events), now@);
}

} // verus!
