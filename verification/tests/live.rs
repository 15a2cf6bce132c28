use retention_agent::clock::Timestamp;
use retention_agent::live::{LiveScheduler, PendingDeletion};
use retention_agent::message::{ObservedMessage, TargetScope};

const HALF_HOUR: i64 = 1_800;
const HALF_HOUR_NANOS: u128 = 1_800_000_000_000;

fn scope() -> TargetScope {
    TargetScope { community_id: 10, channel_id: 20 }
}

fn at(secs: i64) -> Timestamp {
    Timestamp::new(secs, 0).unwrap()
}

fn posted(id: u64) -> ObservedMessage {
    ObservedMessage { id, channel_id: 20, community_id: Some(10), pinned: false, created_at: at(0) }
}

fn message_ids(due: &[PendingDeletion]) -> Vec<u64> {
    due.iter().map(|entry| entry.message_id).collect()
}

#[test]
fn new_scheduler_has_nothing_pending() {
    let mut scheduler = LiveScheduler::new(scope());
    assert_eq!(scheduler.scope(), scope());
    assert_eq!(scheduler.pending_count(), 0);
    assert_eq!(scheduler.next_wakeup(&at(0)), None);
    assert!(scheduler.take_due(&at(1_000_000)).is_empty());
}

#[test]
fn message_outside_the_scope_schedules_nothing() {
    let mut scheduler = LiveScheduler::new(scope());
    let elsewhere = ObservedMessage { channel_id: 21, ..posted(1) };
    let other_community = ObservedMessage { community_id: Some(11), ..posted(2) };
    let direct = ObservedMessage { community_id: None, ..posted(3) };
    assert_eq!(scheduler.on_message_observed(&elsewhere, at(100)), None);
    assert_eq!(scheduler.on_message_observed(&other_community, at(100)), None);
    assert_eq!(scheduler.on_message_observed(&direct, at(100)), None);
    assert_eq!(scheduler.pending_count(), 0);
    assert!(scheduler.take_due(&at(100 + 10 * HALF_HOUR)).is_empty());
}

#[test]
fn message_in_scope_is_armed_from_the_time_it_is_seen() {
    let mut scheduler = LiveScheduler::new(scope());
    let old_post = ObservedMessage { created_at: at(-50_000), ..posted(1) };
    let armed = scheduler.on_message_observed(&old_post, at(100));
    assert_eq!(armed, Some(PendingDeletion { message_id: 1, armed_at: at(100) }));
    assert_eq!(scheduler.pending_count(), 1);
    assert!(scheduler.take_due(&at(100 + HALF_HOUR - 1)).is_empty());
    assert_eq!(scheduler.pending_count(), 1);
}

#[test]
fn message_is_deleted_once_and_not_before_its_time() {
    let mut scheduler = LiveScheduler::new(scope());
    scheduler.on_message_observed(&posted(1), at(100));
    let mut deletes = Vec::new();
    for now in [100, 101, 1_000, 100 + HALF_HOUR - 1] {
        deletes.extend(message_ids(&scheduler.take_due(&at(now))));
    }
    assert!(deletes.is_empty());
    for now in [100 + HALF_HOUR, 100 + HALF_HOUR, 100 + HALF_HOUR + 1, 100 + 5 * HALF_HOUR] {
        deletes.extend(message_ids(&scheduler.take_due(&at(now))));
    }
    assert_eq!(deletes, vec![1]);
    assert_eq!(scheduler.pending_count(), 0);
}

#[test]
fn deadline_is_met_to_the_nanosecond() {
    let mut scheduler = LiveScheduler::new(scope());
    let seen = Timestamp::new(100, 500).unwrap();
    scheduler.on_message_observed(&posted(1), seen);
    assert!(scheduler.take_due(&Timestamp::new(100 + HALF_HOUR, 499).unwrap()).is_empty());
    let due = scheduler.take_due(&Timestamp::new(100 + HALF_HOUR, 500).unwrap());
    assert_eq!(due, vec![PendingDeletion { message_id: 1, armed_at: seen }]);
}

#[test]
fn late_poll_hands_out_all_that_is_due_in_the_order_armed() {
    let mut scheduler = LiveScheduler::new(scope());
    scheduler.on_message_observed(&posted(5), at(100));
    scheduler.on_message_observed(&posted(3), at(200));
    scheduler.on_message_observed(&posted(9), at(300));
    scheduler.on_message_observed(&posted(4), at(400));
    let due = scheduler.take_due(&at(300 + HALF_HOUR));
    assert_eq!(message_ids(&due), vec![5, 3, 9]);
    assert_eq!(scheduler.pending_count(), 1);
    let due = scheduler.take_due(&at(400 + HALF_HOUR));
    assert_eq!(message_ids(&due), vec![4]);
}

#[test]
fn poll_keeps_what_is_not_due_even_between_due_entries() {
    let mut scheduler = LiveScheduler::new(scope());
    scheduler.on_message_observed(&posted(1), at(100));
    scheduler.on_message_observed(&posted(2), at(900));
    scheduler.on_message_observed(&posted(3), at(50));
    let due = scheduler.take_due(&at(100 + HALF_HOUR));
    assert_eq!(message_ids(&due), vec![1, 3]);
    let due = scheduler.take_due(&at(900 + HALF_HOUR));
    assert_eq!(message_ids(&due), vec![2]);
}

#[test]
fn message_seen_twice_is_deleted_twice() {
    let mut scheduler = LiveScheduler::new(scope());
    scheduler.on_message_observed(&posted(1), at(100));
    scheduler.on_message_observed(&posted(1), at(100));
    let due = scheduler.take_due(&at(100 + HALF_HOUR));
    assert_eq!(message_ids(&due), vec![1, 1]);
}

#[test]
fn next_wakeup_is_the_time_to_the_nearest_deadline() {
    let mut scheduler = LiveScheduler::new(scope());
    scheduler.on_message_observed(&posted(1), at(400));
    scheduler.on_message_observed(&posted(2), at(100));
    scheduler.on_message_observed(&posted(3), at(700));
    assert_eq!(scheduler.next_wakeup(&at(100)), Some(HALF_HOUR_NANOS));
    assert_eq!(scheduler.next_wakeup(&at(700)), Some(HALF_HOUR_NANOS - 600_000_000_000));
    assert_eq!(scheduler.next_wakeup(&at(100 + HALF_HOUR)), Some(0));
    assert_eq!(scheduler.next_wakeup(&at(100 + 2 * HALF_HOUR)), Some(0));
    scheduler.take_due(&at(100 + HALF_HOUR));
    assert_eq!(scheduler.next_wakeup(&at(100 + HALF_HOUR)), Some(300_000_000_000));
}

#[test]
fn next_wakeup_counts_from_a_clock_that_runs_behind() {
    let mut scheduler = LiveScheduler::new(scope());
    scheduler.on_message_observed(&posted(1), at(400));
    assert_eq!(scheduler.next_wakeup(&at(390)), Some(HALF_HOUR_NANOS + 10_000_000_000));
    assert!(scheduler.take_due(&at(390)).is_empty());
}

#[test]
fn pending_deletion_tells_its_own_time() {
    let entry = PendingDeletion { message_id: 1, armed_at: at(1_000) };
    assert!(!entry.is_due(&at(999)));
    assert!(!entry.is_due(&at(1_000)));
    assert!(!entry.is_due(&at(1_000 + HALF_HOUR - 1)));
    assert!(entry.is_due(&at(1_000 + HALF_HOUR)));
    assert_eq!(entry.time_left(&at(1_000)), HALF_HOUR_NANOS);
    assert_eq!(entry.time_left(&at(1_000 + HALF_HOUR - 1)), 1_000_000_000);
    assert_eq!(entry.time_left(&at(1_000 + HALF_HOUR)), 0);
    assert_eq!(entry.time_left(&at(990)), HALF_HOUR_NANOS + 10_000_000_000);
}

#[test]
fn live_delete_and_sweep_may_meet_on_one_message() {
    let mut scheduler = LiveScheduler::new(scope());
    scheduler.on_message_observed(&posted(1), at(100));
    let due = scheduler.take_due(&at(100 + HALF_HOUR));
    assert_eq!(message_ids(&due), vec![1]);
    assert!(retention_agent::store::DeleteOutcome::NotFound.is_benign());
    assert!(scheduler.take_due(&at(100 + 2 * HALF_HOUR)).is_empty());
}
