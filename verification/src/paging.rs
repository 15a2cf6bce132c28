//! A model of how the remote store pages the history of a channel, and what a
//! sweep does when it runs against a history that does not change.

use vstd::prelude::*;
use crate::backfill::{SweepAction, SweepState};
use crate::message::{candidates_of, lemma_candidates_of_concat, ObservedMessage};

verus! {

/// No two messages of `history` share an id.
pub open spec fn distinct_ids(history: Seq<ObservedMessage>) -> bool {
    forall|i: int, j: int|
        0 <= i < j < history.len() ==> (#[trigger] history[i]).id != (#[trigger] history[j]).id
}

/// Whether the message at position `at` of `history` has the id `id`.
pub open spec fn holds_id(history: Seq<ObservedMessage>, id: u64, at: int) -> bool {
    0 <= at < history.len() && history[at].id == id
}

/// Whether some message of `history` has the id `id`.
pub open spec fn names_message(history: Seq<ObservedMessage>, id: u64) -> bool {
    exists|at: int| holds_id(history, id, at)
}

/// A position in `history` at which the id `id` stands, where there is one.
pub open spec fn position_of(history: Seq<ObservedMessage>, id: u64) -> int {
    choose|at: int| holds_id(history, id, at)
}

/// The position in `history` at which a fetch with the cursor `before`
/// starts: the front without a cursor, else just behind the message that the
/// cursor names, which the page leaves out. A cursor that names no message
/// starts behind the end.
pub open spec fn resume_point(history: Seq<ObservedMessage>, before: Option<u64>) -> int {
    match before {
        None => 0,
        Some(id) => if names_message(history, id) {
            position_of(history, id) + 1
        } else {
            history.len() as int
        },
    }
}

/// The position at which a page of at most `page_size` messages ends that
/// starts at `from` in a history of `len` messages.
pub open spec fn page_end(len: int, from: int, page_size: nat) -> int {
    if from + page_size <= len {
        from + page_size
    } else {
        len
    }
}

/// The page that the store returns for the cursor `before`, from a history
/// that lists the newest message first: at most `page_size` messages, the
/// newest ones that are older than the cursor.
pub open spec fn served_page(
    history: Seq<ObservedMessage>,
    before: Option<u64>,
    page_size: nat,
) -> Seq<ObservedMessage> {
    let from = resume_point(history, before);
    history.subrange(from, page_end(history.len() as int, from, page_size))
}

/// The state of a sweep, started at the instant `now` on a channel with
/// history, after the store has answered `pages` of its fetches.
pub open spec fn state_after_pages(
    history: Seq<ObservedMessage>,
    page_size: nat,
    now: int,
    pages: nat,
) -> SweepState
    decreases pages,
{
    if pages == 0 {
        SweepState::initial(now, true)
    } else {
        let before = state_after_pages(history, page_size, now, (pages - 1) as nat);
        before.after_page(served_page(history, before.cursor, page_size))
    }
}

/// The number of pages of `page_size` messages that hold `len` messages:
/// `len / page_size`, rounded up.
pub open spec fn pages_needed(len: nat, page_size: nat) -> nat {
    ((len + page_size - 1) / (page_size as int)) as nat
}

/// Fewer than `pages_needed` pages do not hold all of `len` messages, and
/// `pages_needed` pages do.
pub proof fn lemma_pages_needed(len: nat, page_size: nat, pages: nat)
    requires
        page_size > 0,
    ensures
        pages < pages_needed(len, page_size) <==> pages * page_size < len,
{
    let full = (len + page_size - 1) / (page_size as int);
    let rest = (len + page_size - 1) % (page_size as int);
    vstd::arithmetic::div_mod::lemma_fundamental_div_mod(len + page_size - 1, page_size as int);
    vstd::arithmetic::div_mod::lemma_mod_bound(len + page_size - 1, page_size as int);
    vstd::arithmetic::div_mod::lemma_div_pos_is_pos(len + page_size - 1, page_size as int);
    if pages < full {
        assert((pages + 1) * page_size <= full * page_size) by (nonlinear_arith)
            requires
                pages + 1 <= full,
                page_size > 0,
        ;
        assert((pages + 1) * page_size == pages * page_size + page_size) by (nonlinear_arith);
        assert(full * page_size == page_size * full) by (nonlinear_arith);
    } else {
        assert(full * page_size <= pages * page_size) by (nonlinear_arith)
            requires
                full <= pages,
                page_size > 0,
        ;
        assert(full * page_size == page_size * full) by (nonlinear_arith);
    }
}

/// In a history without repeated ids a cursor that names the message at
/// `position` makes the next page start right behind it.
pub proof fn lemma_resume_behind_cursor(history: Seq<ObservedMessage>, position: int)
    requires
        distinct_ids(history),
        0 <= position < history.len(),
    ensures
        resume_point(history, Some(history[position].id)) == position + 1,
{
    let id = history[position].id;
    assert(holds_id(history, id, position));
    let found = position_of(history, id);
    assert(holds_id(history, id, found));
    if found < position {
        assert(history[found].id != history[position].id);
    } else if position < found {
        assert(history[position].id != history[found].id);
    }
}

/// The number of messages that `pages` full pages cover of a history of `len`
/// messages.
pub open spec fn covered(len: nat, page_size: nat, pages: nat) -> int {
    if pages * page_size <= len {
        (pages * page_size) as int
    } else {
        len as int
    }
}

/// What a sweep holds after `pages` answered fetches, as long as the history
/// is not used up: it still collects, its cursor names the last message it
/// has received, and its candidates are those of the messages received.
pub proof fn lemma_sweep_progress(
    history: Seq<ObservedMessage>,
    page_size: nat,
    now: int,
    pages: nat,
)
    requires
        distinct_ids(history),
        page_size > 0,
        pages <= pages_needed(history.len(), page_size),
    ensures
        ({
            let state = state_after_pages(history, page_size, now, pages);
            let seen = covered(history.len(), page_size, pages);
            &&& 0 <= seen <= history.len()
            &&& pages > 0 ==> seen > 0
            &&& state.collecting
            &&& state.well_formed()
            &&& state.now == now
            &&& state.cursor == if pages == 0 {
                None
            } else {
                Some(history[seen - 1].id)
            }
            &&& resume_point(history, state.cursor) == seen
            &&& state.candidates == candidates_of(history.take(seen), now)
        }),
    decreases pages,
{
    let len = history.len();
    if pages == 0 {
        assert(0 * page_size == 0) by (nonlinear_arith);
        assert(history.take(0) =~= Seq::<ObservedMessage>::empty());
        assert(candidates_of(Seq::<ObservedMessage>::empty(), now) =~= Seq::<u64>::empty());
    } else {
        let earlier = (pages - 1) as nat;
        lemma_sweep_progress(history, page_size, now, earlier);
        lemma_pages_needed(len, page_size, earlier);
        let before = state_after_pages(history, page_size, now, earlier);
        let from = covered(len, page_size, earlier);
        let to = covered(len, page_size, pages);
        assert(pages * page_size == earlier * page_size + page_size) by (nonlinear_arith)
            requires
                pages == earlier + 1,
        ;
        let page = served_page(history, before.cursor, page_size);
        lemma_resume_behind_cursor(history, to - 1);
        assert(history.take(to) =~= history.take(from) + page);
        lemma_candidates_of_concat(history.take(from), page, now);
    }
}

/// Pagination ends. A sweep over a history of `n` distinct messages that the
/// store serves in pages of `page_size` makes `pages_needed(n, page_size) + 1`
/// fetches: the first without a cursor, each later one with the id of the
/// oldest message received so far as its cursor. All but the last return
/// messages; the last returns the first empty page, on which the sweep stops
/// fetching. By then it holds as candidates, in the order of the history,
/// exactly the unpinned messages older than the threshold.
pub proof fn lemma_pagination_terminates(
    history: Seq<ObservedMessage>,
    page_size: nat,
    now: int,
)
    requires
        distinct_ids(history),
        page_size > 0,
    ensures
        ({
            let full = pages_needed(history.len(), page_size);
            let state = |pages: nat| state_after_pages(history, page_size, now, pages);
            &&& state(0).awaited() == SweepAction::FetchPage { before: None }
            &&& forall|pages: nat|
                0 < pages <= full ==> (#[trigger] state(pages)).awaited()
                    == SweepAction::FetchPage {
                    before: Some(history[covered(history.len(), page_size, pages) - 1].id),
                }
            &&& forall|pages: nat|
                pages < full ==> served_page(
                    history,
                    (#[trigger] state(pages)).cursor,
                    page_size,
                ).len() > 0
            &&& served_page(history, state(full).cursor, page_size).len() == 0
            &&& !state(full + 1).collecting
            &&& state(full + 1).candidates == candidates_of(history, now)
            &&& state(full + 1).well_formed()
        }),
{
    let len = history.len();
    let full = pages_needed(len, page_size);
    let state = |pages: nat| state_after_pages(history, page_size, now, pages);
    lemma_sweep_progress(history, page_size, now, 0);
    assert forall|pages: nat| 0 < pages <= full implies (#[trigger] state(pages)).awaited()
        == (SweepAction::FetchPage {
        before: Some(history[covered(len, page_size, pages) - 1].id),
    }) by {
        lemma_sweep_progress(history, page_size, now, pages);
    }
    assert forall|pages: nat| pages < full implies served_page(
        history,
        (#[trigger] state(pages)).cursor,
        page_size,
    ).len() > 0 by {
        lemma_sweep_progress(history, page_size, now, pages);
        lemma_pages_needed(len, page_size, pages);
    }
    lemma_sweep_progress(history, page_size, now, full);
    lemma_pages_needed(len, page_size, full);
    assert(history.take(len as int) =~= history);
}

} // verus!
