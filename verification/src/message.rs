//! The channel under management and the messages seen in it.

use vstd::prelude::*;
use crate::clock::{Timestamp, MAX_MESSAGE_AGE_NANOS, MAX_MESSAGE_AGE_SECS, NANOS_PER_SEC};

verus! {

/// The one channel under management, and the community it belongs to.
#[derive(Clone, Copy, Debug, PartialEq, Eq)]
pub struct TargetScope {
    pub community_id: u64,
    pub channel_id: u64,
}

/// A message as the transport delivers it or as a fetched page holds it.
/// `community_id` is absent for a direct message.
#[derive(Clone, Copy, Debug, PartialEq, Eq)]
pub struct ObservedMessage {
    pub id: u64,
    pub channel_id: u64,
    pub community_id: Option<u64>,
    pub pinned: bool,
    pub created_at: Timestamp,
}

impl TargetScope {
    /// Whether `message` was posted in the managed channel of the managed
    /// community. A direct message never is.
    pub open spec fn covers(self, message: ObservedMessage) -> bool {
        &&& message.community_id == Some(self.community_id)
        &&& message.channel_id == self.channel_id
    }

    /// Decides whether `message` belongs to this scope.
    pub fn contains(&self, message: &ObservedMessage) -> (inside: bool)
        ensures
            inside == self.covers(*message),
    {
        match message.community_id {
            Some(community_id) => community_id == self.community_id && message.channel_id
                == self.channel_id,
            None => false,
        }
    }
}

/// Whether a sweep that started at the instant `now` deletes `message`: it is
/// not pinned and was created more than the retention threshold before `now`.
/// A message created after `now` has a negative age and is never deleted.
pub open spec fn deletion_candidate(message: ObservedMessage, now: int) -> bool {
    !message.pinned && now - message.created_at@ > MAX_MESSAGE_AGE_NANOS
}

/// The ids of the deletion candidates among `page`, in the order of the page.
pub open spec fn candidates_of(page: Seq<ObservedMessage>, now: int) -> Seq<u64> {
    page.filter(|m: ObservedMessage| deletion_candidate(m, now)).map_values(
        |m: ObservedMessage| m.id,
    )
}

/// Candidate selection looks at the pin and at the age alone: a pinned
/// message is never a candidate, nor is one created at or after the instant
/// `now`, whose age is zero or negative; any other message is one exactly
/// when more than thirty minutes lie between its creation and `now`.
pub proof fn lemma_candidate_selection(message: ObservedMessage, now: int)
    ensures
        message.pinned ==> !deletion_candidate(message, now),
        now <= message.created_at@ ==> !deletion_candidate(message, now),
        deletion_candidate(message, now) <==> !message.pinned && now - message.created_at@
            > MAX_MESSAGE_AGE_SECS * NANOS_PER_SEC,
{
}

/// The candidates of two pages, one after the other, are those of the first
/// followed by those of the second.
pub proof fn lemma_candidates_of_concat(
    first: Seq<ObservedMessage>,
    second: Seq<ObservedMessage>,
    now: int,
)
    ensures
        candidates_of(first + second, now) == candidates_of(first, now) + candidates_of(
            second,
            now,
        ),
{
    let wanted = |m: ObservedMessage| deletion_candidate(m, now);
    Seq::filter_distributes_over_add(first, second, wanted);
    assert(candidates_of(first + second, now) =~= candidates_of(first, now) + candidates_of(
        second,
        now,
    ));
}

/// Whether `id` is the id of a message of `page` that is not pinned and was
/// created more than the threshold before the instant `now`.
pub open spec fn names_old_unpinned(page: Seq<ObservedMessage>, now: int, id: u64) -> bool {
    exists|j: int|
        0 <= j < page.len() && (#[trigger] page[j]).id == id && !page[j].pinned && now
            - page[j].created_at@ > MAX_MESSAGE_AGE_NANOS
}

/// The sweeper's invariant: every candidate of a page is the id of a message
/// of the page that is not pinned and is older than the threshold, and every
/// such message is among the candidates.
pub proof fn lemma_candidates_are_old_and_unpinned(page: Seq<ObservedMessage>, now: int)
    ensures
        forall|i: int|
            0 <= i < candidates_of(page, now).len() ==> names_old_unpinned(
                page,
                now,
                #[trigger] candidates_of(page, now)[i],
            ),
        forall|j: int|
            0 <= j < page.len() && deletion_candidate(#[trigger] page[j], now)
                ==> candidates_of(page, now).contains(page[j].id),
{
    let wanted = |m: ObservedMessage| deletion_candidate(m, now);
    let kept = page.filter(wanted);
    lemma_filter_origin(page, wanted);
    assert forall|i: int| 0 <= i < candidates_of(page, now).len() implies names_old_unpinned(
        page,
        now,
        #[trigger] candidates_of(page, now)[i],
    ) by {
        assert(page.contains(kept[i]));
        let j = choose|j: int| 0 <= j < page.len() && page[j] == kept[i];
        assert(page[j].id == candidates_of(page, now)[i]);
    }
    assert forall|j: int|
        0 <= j < page.len() && deletion_candidate(#[trigger] page[j], now) implies candidates_of(
        page,
        now,
    ).contains(page[j].id) by {
        broadcast use vstd::seq_lib::group_filter_ensures;

        assert(wanted(page[j]));
        assert(kept.contains(page[j]));
        let i = choose|i: int| 0 <= i < kept.len() && kept[i] == page[j];
        assert(candidates_of(page, now)[i] == page[j].id);
    }
}

/// What a filter keeps meets the condition and stood in the sequence.
proof fn lemma_filter_origin(page: Seq<ObservedMessage>, wanted: spec_fn(ObservedMessage) -> bool)
    ensures
        forall|i: int|
            0 <= i < page.filter(wanted).len() ==> wanted(#[trigger] page.filter(wanted)[i])
                && page.contains(page.filter(wanted)[i]),
    decreases page.len(),
{
    reveal(Seq::filter);
    if page.len() > 0 {
        let front = page.drop_last();
        lemma_filter_origin(front, wanted);
        assert forall|i: int| 0 <= i < page.filter(wanted).len() implies wanted(
            #[trigger] page.filter(wanted)[i],
        ) && page.contains(page.filter(wanted)[i]) by {
            if i < front.filter(wanted).len() {
                let kept = front.filter(wanted)[i];
                assert(front.contains(kept));
                let j = choose|j: int| 0 <= j < front.len() && front[j] == kept;
                assert(page[j] == kept);
            } else {
                assert(page.filter(wanted)[i] == page[page.len() - 1]);
            }
        }
    }
}

impl ObservedMessage {
    /// Decides whether a sweep that started at `now` deletes this message.
    pub fn is_deletion_candidate(&self, now: &Timestamp) -> (candidate: bool)
        ensures
            candidate == deletion_candidate(*self, now@),
    {
        match now.elapsed_since(&self.created_at) {
            Some(age) => !self.pinned && age > MAX_MESSAGE_AGE_NANOS,
            None => false,
        }
    }
}

/// Appends to `found` the ids of the deletion candidates among `page`, in the
/// order of the page.
pub fn collect_candidates(page: &Vec<ObservedMessage>, now: &Timestamp, found: &mut Vec<u64>)
    ensures
        final(found)@ == old(found)@ + candidates_of(page@, now@),
{
    let ghost wanted = |m: ObservedMessage| deletion_candidate(m, now@);
    let ghost id_of = |m: ObservedMessage| m.id;
    let mut i: usize = 0;
    assert(page@.take(0).filter(wanted) =~= Seq::<ObservedMessage>::empty());
    while i < page.len()
        invariant
            i <= page.len(),
            wanted == |m: ObservedMessage| deletion_candidate(m, now@),
            id_of == |m: ObservedMessage| m.id,
            found@ == old(found)@ + page@.take(i as int).filter(wanted).map_values(id_of),
        decreases page.len() - i,
    {
        let message = &page[i];
        proof {
            let before = page@.take(i as int);
            let upto = page@.take(i + 1);
            assert(upto.drop_last() =~= before);
            assert(upto.last() == page@[i as int]);
            reveal(Seq::filter);
            assert(upto.filter(wanted) == if wanted(page@[i as int]) {
                before.filter(wanted).push(page@[i as int])
            } else {
                before.filter(wanted)
            });
        }
        if message.is_deletion_candidate(now) {
            found.push(message.id);
            assert(found@ =~= old(found)@ + page@.take(i + 1).filter(wanted).map_values(id_of));
        }
        i += 1;
    }
    assert(page@.take(page.len() as int) =~= page@);
}

} // verus!
