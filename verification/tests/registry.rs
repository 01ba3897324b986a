use zkpjwt_verifier::events::Notification;
use zkpjwt_verifier::hash::HashValue;
use zkpjwt_verifier::identity::Identity;
use zkpjwt_verifier::ledger::AccessLedger;
use zkpjwt_verifier::registry::{RootRecord, RootRegistry};

fn root_number(number: u8) -> HashValue {
    HashValue::new([number; 32])
}

fn person(number: u8) -> Identity {
    Identity::new([number; 20])
}

#[test]
fn new_registry_knows_no_root() {
    let registry = RootRegistry::new();
    assert!(!registry.is_active(root_number(1)));
    assert_eq!(registry.get(root_number(1)), None);
    assert_eq!(registry.describe(root_number(1)), RootRecord::unknown());
}

#[test]
fn unknown_record_is_all_zero() {
    let record = RootRecord::unknown();
    assert_eq!(record.publisher, Identity::new([0u8; 20]));
    assert_eq!(record.publisher, Identity::zero());
    assert_eq!(record.published_at, 0);
    assert!(!record.active);
}

#[test]
fn publish_records_publisher_time_and_active() {
    let mut registry = RootRegistry::new();
    let event = registry.publish(root_number(1), person(7), 1_700_000_000);
    assert_eq!(
        event,
        Notification::RootPublished {
            root: root_number(1),
            publisher: person(7),
            timestamp: 1_700_000_000
        }
    );
    assert!(registry.is_active(root_number(1)));
    let expected = RootRecord { publisher: person(7), published_at: 1_700_000_000, active: true };
    assert_eq!(registry.get(root_number(1)), Some(expected));
    assert_eq!(registry.describe(root_number(1)), expected);
}

#[test]
fn publish_leaves_other_roots_alone() {
    let mut registry = RootRegistry::new();
    registry.publish(root_number(1), person(7), 10);
    assert!(!registry.is_active(root_number(2)));
    assert_eq!(registry.describe(root_number(2)), RootRecord::unknown());
    registry.publish(root_number(2), person(8), 20);
    assert_eq!(
        registry.describe(root_number(1)),
        RootRecord { publisher: person(7), published_at: 10, active: true }
    );
    assert_eq!(
        registry.describe(root_number(2)),
        RootRecord { publisher: person(8), published_at: 20, active: true }
    );
}

#[test]
fn republish_keeps_only_the_second_publisher() {
    let mut registry = RootRegistry::new();
    registry.publish(root_number(1), person(7), 10);
    registry.publish(root_number(1), person(8), 20);
    assert!(registry.is_active(root_number(1)));
    assert_eq!(
        registry.describe(root_number(1)),
        RootRecord { publisher: person(8), published_at: 20, active: true }
    );
}

#[test]
fn roots_that_differ_in_one_byte_are_different_roots() {
    let mut registry = RootRegistry::new();
    let mut bytes = [1u8; 32];
    registry.publish(HashValue::new(bytes), person(7), 10);
    bytes[31] = 2;
    assert!(!registry.is_active(HashValue::new(bytes)));
    bytes[31] = 1;
    bytes[0] = 0;
    assert!(!registry.is_active(HashValue::new(bytes)));
}

#[test]
fn many_roots_are_kept_apart() {
    let mut registry = RootRegistry::new();
    for number in 0..50u8 {
        registry.publish(root_number(number), person(number), number as u64);
    }
    for number in 0..50u8 {
        assert_eq!(
            registry.describe(root_number(number)),
            RootRecord { publisher: person(number), published_at: number as u64, active: true }
        );
    }
    assert!(!registry.is_active(root_number(50)));
}

#[test]
fn publish_at_the_largest_time() {
    let mut registry = RootRegistry::new();
    registry.publish(root_number(1), person(7), u64::MAX);
    assert_eq!(registry.describe(root_number(1)).published_at, u64::MAX);
}

#[test]
fn new_ledger_has_no_access_on_record() {
    let ledger = AccessLedger::new();
    assert_eq!(ledger.last_access(root_number(1), person(7)), 0);
}

#[test]
fn record_access_sets_the_time() {
    let mut ledger = AccessLedger::new();
    ledger.record_access(root_number(1), person(7), 42);
    assert_eq!(ledger.last_access(root_number(1), person(7)), 42);
}

#[test]
fn record_access_overwrites_the_earlier_time() {
    let mut ledger = AccessLedger::new();
    ledger.record_access(root_number(1), person(7), 42);
    ledger.record_access(root_number(1), person(7), 43);
    assert_eq!(ledger.last_access(root_number(1), person(7)), 43);
    ledger.record_access(root_number(1), person(7), 5);
    assert_eq!(ledger.last_access(root_number(1), person(7)), 5);
}

#[test]
fn ledger_is_keyed_by_root_and_caller() {
    let mut ledger = AccessLedger::new();
    ledger.record_access(root_number(1), person(7), 42);
    assert_eq!(ledger.last_access(root_number(1), person(8)), 0);
    assert_eq!(ledger.last_access(root_number(2), person(7)), 0);
    ledger.record_access(root_number(2), person(7), 50);
    ledger.record_access(root_number(1), person(8), 60);
    assert_eq!(ledger.last_access(root_number(1), person(7)), 42);
    assert_eq!(ledger.last_access(root_number(2), person(7)), 50);
    assert_eq!(ledger.last_access(root_number(1), person(8)), 60);
}

#[test]
fn identities_are_equal_when_their_bytes_are() {
    assert_eq!(person(3), Identity::new([3u8; 20]));
    assert_ne!(person(3), person(4));
    let mut bytes = [3u8; 20];
    bytes[19] = 4;
    assert_ne!(person(3), Identity::new(bytes));
    assert_eq!(Identity::new(bytes).to_bytes(), bytes);
}
