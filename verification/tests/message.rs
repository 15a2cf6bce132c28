use retention_agent::clock::Timestamp;
use retention_agent::message::{collect_candidates, ObservedMessage, TargetScope};

const HALF_HOUR: i64 = 1_800;

fn at(secs: i64, nanos: u32) -> Timestamp {
    Timestamp::new(secs, nanos).unwrap()
}

fn message(id: u64, pinned: bool, created_at: Timestamp) -> ObservedMessage {
    ObservedMessage { id, channel_id: 20, community_id: Some(10), pinned, created_at }
}

#[test]
fn scope_covers_only_its_own_channel() {
    let scope = TargetScope { community_id: 10, channel_id: 20 };
    let inside = message(1, false, at(0, 0));
    assert!(scope.contains(&inside));
    assert!(!scope.contains(&ObservedMessage { channel_id: 21, ..inside }));
    assert!(!scope.contains(&ObservedMessage { community_id: Some(11), ..inside }));
    assert!(!scope.contains(&ObservedMessage { community_id: Some(20), channel_id: 10, ..inside }));
}

#[test]
fn scope_never_covers_a_direct_message() {
    let scope = TargetScope { community_id: 10, channel_id: 20 };
    let direct = ObservedMessage { community_id: None, ..message(1, false, at(0, 0)) };
    assert!(!scope.contains(&direct));
}

#[test]
fn candidate_needs_more_than_thirty_minutes() {
    let now = at(1_000_000, 0);
    assert!(!message(1, false, at(1_000_000 - HALF_HOUR, 0)).is_deletion_candidate(&now));
    assert!(!message(1, false, at(1_000_000 - HALF_HOUR, 1)).is_deletion_candidate(&now));
    assert!(message(1, false, at(1_000_000 - HALF_HOUR - 1, 999_999_999)).is_deletion_candidate(&now));
    assert!(message(1, false, at(1_000_000 - 2 * HALF_HOUR, 0)).is_deletion_candidate(&now));
    assert!(!message(1, false, at(1_000_000 - 600, 0)).is_deletion_candidate(&now));
}

#[test]
fn pinned_message_is_never_a_candidate() {
    let now = at(1_000_000, 0);
    assert!(!message(1, true, at(0, 0)).is_deletion_candidate(&now));
    assert!(!message(1, true, at(1_000_000 - HALF_HOUR - 60, 0)).is_deletion_candidate(&now));
}

#[test]
fn message_from_the_future_is_never_a_candidate() {
    let now = at(1_000_000, 0);
    assert!(!message(1, false, at(1_000_000, 1)).is_deletion_candidate(&now));
    assert!(!message(1, false, at(1_000_000 + 10 * HALF_HOUR, 0)).is_deletion_candidate(&now));
    assert!(!message(1, false, now).is_deletion_candidate(&now));
}

#[test]
fn candidate_selection_gives_the_same_answer_each_time() {
    let now = at(5_000, 17);
    let old = message(1, false, at(3_000, 0));
    let young = message(2, false, at(4_000, 0));
    for _ in 0..3 {
        assert!(old.is_deletion_candidate(&now));
        assert!(!young.is_deletion_candidate(&now));
    }
}

#[test]
fn collect_candidates_appends_in_page_order() {
    let now = at(100_000, 0);
    let page = vec![
        message(9, false, at(99_000, 0)),
        message(8, false, at(98_000, 0)),
        message(7, true, at(97_000, 0)),
        message(6, false, at(96_000, 0)),
        message(5, false, at(100_500, 0)),
    ];
    let mut found = vec![42];
    collect_candidates(&page, &now, &mut found);
    assert_eq!(found, vec![42, 8, 6]);
    collect_candidates(&Vec::new(), &now, &mut found);
    assert_eq!(found, vec![42, 8, 6]);
}
