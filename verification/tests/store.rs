use ntag_sdm::db::{check_counter, same_uid, CounterWrite, Db, MAX_READ_COUNTER};
use ntag_sdm::DenyReason;

const TAG: [u8; 7] = [0x04, 0x95, 0x8C, 0xAA, 0x5C, 0x5E, 0x80];
const OTHER: [u8; 7] = [0x04, 0xDE, 0x5F, 0x1E, 0xAC, 0xC0, 0x40];

fn counter_of(db: &Db, uid: &[u8; 7]) -> Option<u32> {
    db.get_card(uid).map(|card| card.read_counter)
}

fn store_at(counter: u32) -> Db {
    let mut db = Db::new();
    assert_eq!(db.register_card(&TAG, counter), Ok(()));
    db
}

#[test]
fn counter_decisions() {
    assert_eq!(check_counter(None, 0), Ok(CounterWrite::Insert));
    assert_eq!(check_counter(None, 16_777_215), Ok(CounterWrite::Insert));
    assert_eq!(check_counter(Some(5), 6), Ok(CounterWrite::Update));
    assert_eq!(check_counter(Some(5), 5), Err(DenyReason::ReplayDetected));
    assert_eq!(check_counter(Some(5), 3), Err(DenyReason::ReplayDetected));
    assert_eq!(check_counter(Some(0), 0), Err(DenyReason::ReplayDetected));
    assert_eq!(check_counter(Some(16_777_214), 16_777_215), Ok(CounterWrite::Update));
    assert_eq!(check_counter(Some(16_777_215), 16_777_215), Err(DenyReason::ReplayDetected));
}

#[test]
fn counters_over_24_bits_are_malformed() {
    assert_eq!(MAX_READ_COUNTER, 16_777_215);
    assert_eq!(check_counter(None, 16_777_216), Err(DenyReason::MalformedInput));
    assert_eq!(check_counter(Some(5), 16_777_216), Err(DenyReason::MalformedInput));
    assert_eq!(check_counter(Some(5), u32::MAX), Err(DenyReason::MalformedInput));
    let mut db = store_at(5);
    assert_eq!(db.register_card(&TAG, 16_777_216), Err(DenyReason::MalformedInput));
    assert_eq!(db.register_card(&OTHER, 16_777_216), Err(DenyReason::MalformedInput));
    assert_eq!(counter_of(&db, &TAG), Some(5));
    assert_eq!(counter_of(&db, &OTHER), None);
    assert_eq!(db.visit_count(), 1);
}

#[test]
fn same_uid_compares_all_bytes() {
    assert!(same_uid(&TAG, &TAG));
    assert!(!same_uid(&TAG, &OTHER));
    let mut last = TAG;
    last[6] ^= 1;
    assert!(!same_uid(&TAG, &last));
    let mut first = TAG;
    first[0] ^= 0x80;
    assert!(!same_uid(&TAG, &first));
}

#[test]
fn an_empty_store_knows_no_tag() {
    let db = Db::new();
    assert!(db.get_card(&TAG).is_none());
    assert_eq!(db.visit_count(), 0);
}

#[test]
fn first_tap_is_recorded_with_any_counter() {
    for counter in [0u32, 1, 5, 70_000, 16_777_215] {
        let mut db = Db::new();
        assert_eq!(db.register_card(&TAG, counter), Ok(()));
        let card = db.get_card(&TAG).unwrap();
        assert_eq!(card.id, 1);
        assert_eq!(card.uid, TAG);
        assert_eq!(card.read_counter, counter);
        assert_eq!(db.visit_count(), 1);
    }
}

#[test]
fn replay_monotonicity() {
    let mut db = store_at(5);
    assert_eq!(db.register_card(&TAG, 5), Err(DenyReason::ReplayDetected));
    assert_eq!(counter_of(&db, &TAG), Some(5));
    assert_eq!(db.register_card(&TAG, 3), Err(DenyReason::ReplayDetected));
    assert_eq!(counter_of(&db, &TAG), Some(5));
    assert_eq!(db.visit_count(), 1);
    assert_eq!(db.register_card(&TAG, 6), Ok(()));
    assert_eq!(counter_of(&db, &TAG), Some(6));
    assert_eq!(db.visit_count(), 2);
    assert_eq!(db.get_card(&TAG).unwrap().id, 1);
}

#[test]
fn counters_may_jump() {
    let mut db = store_at(5);
    assert_eq!(db.register_card(&TAG, 1_000_000), Ok(()));
    assert_eq!(db.register_card(&TAG, 999_999), Err(DenyReason::ReplayDetected));
    assert_eq!(db.register_card(&TAG, 16_777_215), Ok(()));
    assert_eq!(db.register_card(&TAG, 16_777_215), Err(DenyReason::ReplayDetected));
    assert_eq!(counter_of(&db, &TAG), Some(16_777_215));
}

#[test]
fn tags_do_not_disturb_each_other() {
    let mut db = store_at(5);
    assert_eq!(db.register_card(&OTHER, 2), Ok(()));
    assert_eq!(db.get_card(&OTHER).unwrap().id, 2);
    assert_eq!(counter_of(&db, &TAG), Some(5));
    assert_eq!(counter_of(&db, &OTHER), Some(2));
    assert_eq!(db.register_card(&OTHER, 3), Ok(()));
    assert_eq!(db.register_card(&TAG, 3), Err(DenyReason::ReplayDetected));
    assert_eq!(counter_of(&db, &TAG), Some(5));
    assert_eq!(counter_of(&db, &OTHER), Some(3));
    assert_eq!(db.visit_count(), 3);
}

#[test]
fn concurrent_ordering() {
    let mut low_first = store_at(5);
    assert_eq!(low_first.register_card(&TAG, 7), Ok(()));
    assert_eq!(counter_of(&low_first, &TAG), Some(7));
    assert_eq!(low_first.register_card(&TAG, 8), Ok(()));
    assert_eq!(counter_of(&low_first, &TAG), Some(8));

    let mut high_first = store_at(5);
    assert_eq!(high_first.register_card(&TAG, 8), Ok(()));
    assert_eq!(counter_of(&high_first, &TAG), Some(8));
    assert_eq!(high_first.register_card(&TAG, 7), Err(DenyReason::ReplayDetected));
    assert_eq!(counter_of(&high_first, &TAG), Some(8));
}

#[test]
fn concurrent_ordering_on_an_unknown_tag() {
    let mut low_first = Db::new();
    assert_eq!(low_first.register_card(&TAG, 7), Ok(()));
    assert_eq!(low_first.register_card(&TAG, 8), Ok(()));
    let mut high_first = Db::new();
    assert_eq!(high_first.register_card(&TAG, 8), Ok(()));
    assert_eq!(high_first.register_card(&TAG, 7), Err(DenyReason::ReplayDetected));
    assert_eq!(counter_of(&low_first, &TAG), Some(8));
    assert_eq!(counter_of(&high_first, &TAG), Some(8));
}

#[test]
fn the_counter_never_regresses() {
    let mut db = Db::new();
    let mut last: Option<u32> = None;
    for counter in [4u32, 2, 9, 9, 1, 16_777_216, 10, 3, 11, 0] {
        let _ = db.register_card(&TAG, counter);
        let now = counter_of(&db, &TAG);
        assert!(now >= last);
        last = now;
    }
    assert_eq!(last, Some(11));
    assert_eq!(db.visit_count(), 4);
}

#[test]
fn visits_need_a_card() {
    let mut db = Db::new();
    assert_eq!(db.register_visit(&TAG), Err(DenyReason::StorageError));
    assert_eq!(db.visit_count(), 0);
    assert_eq!(db.register_card(&TAG, 1), Ok(()));
    assert_eq!(db.register_visit(&TAG), Ok(()));
    assert_eq!(db.register_visit(&OTHER), Err(DenyReason::StorageError));
    assert_eq!(db.visit_count(), 2);
    assert_eq!(counter_of(&db, &TAG), Some(1));
}
