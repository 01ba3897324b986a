use zkpjwt_verifier::access::{resolve_access, AccessOutcome, ZKPJWTVerifier};
use zkpjwt_verifier::events::{DeniedReason, Notification};
use zkpjwt_verifier::hash::HashValue;
use zkpjwt_verifier::hash_pair::combine;
use zkpjwt_verifier::identity::Identity;

fn member(number: u8) -> HashValue {
    HashValue::new([number * 0x11; 32])
}

fn tree_root() -> HashValue {
    combine(combine(member(1), member(2)), combine(member(3), member(4)))
}

fn proof_for_second() -> Vec<HashValue> {
    vec![member(1), combine(member(3), member(4))]
}

fn wallet(number: u8) -> Identity {
    Identity::new([number; 20])
}

fn granted(root: HashValue, user: Identity, timestamp: u64) -> AccessOutcome {
    AccessOutcome {
        result: Ok(true),
        event: Notification::AccessGranted { root, user, timestamp },
    }
}

fn denied(root: HashValue, user: Identity) -> AccessOutcome {
    AccessOutcome {
        result: Ok(false),
        event: Notification::AccessDenied { root, user, reason: DeniedReason::InvalidProof },
    }
}

fn failed(root: HashValue, user: Identity) -> AccessOutcome {
    AccessOutcome {
        result: Err(DeniedReason::RootNotFoundOrInactive),
        event: Notification::AccessDenied {
            root,
            user,
            reason: DeniedReason::RootNotFoundOrInactive,
        },
    }
}

#[test]
fn publish_then_unlock_with_a_valid_proof_then_with_a_wrong_sibling() {
    let mut verifier = ZKPJWTVerifier::new();
    let root = tree_root();
    let published = verifier.publish_root(root, wallet(9), 1000);
    assert_eq!(
        published,
        Notification::RootPublished { root, publisher: wallet(9), timestamp: 1000 }
    );

    let outcome = verifier.unlock_access(root, member(2), proof_for_second(), wallet(1), 1234);
    assert_eq!(outcome, granted(root, wallet(1), 1234));
    assert_eq!(verifier.get_last_access(root, wallet(1)), 1234);

    let outcome = verifier.unlock_access(root, member(2), vec![member(3)], wallet(1), 1300);
    assert_eq!(outcome, denied(root, wallet(1)));
    assert_eq!(verifier.get_last_access(root, wallet(1)), 1234);
}

#[test]
fn unknown_root_is_not_found_and_fails_the_call() {
    let mut verifier = ZKPJWTVerifier::new();
    let root = tree_root();
    assert!(!verifier.root_exists(root));
    assert_eq!(verifier.get_root_info(root), (Identity::zero(), 0, false));
    assert_eq!(verifier.get_root_info(root), (Identity::new([0u8; 20]), 0, false));

    let outcome = verifier.unlock_access(root, member(2), proof_for_second(), wallet(1), 50);
    assert_eq!(outcome, failed(root, wallet(1)));
    assert!(outcome.result.is_err());
    assert_eq!(verifier.get_last_access(root, wallet(1)), 0);
    assert!(!verifier.root_exists(root));
}

#[test]
fn unknown_root_fails_even_with_the_empty_proof_of_itself() {
    let mut verifier = ZKPJWTVerifier::new();
    let root = tree_root();
    let outcome = verifier.unlock_access(root, root, Vec::new(), wallet(1), 50);
    assert_eq!(outcome, failed(root, wallet(1)));
    assert_eq!(verifier.get_last_access(root, wallet(1)), 0);
}

#[test]
fn another_published_root_does_not_help() {
    let mut verifier = ZKPJWTVerifier::new();
    verifier.publish_root(member(7), wallet(9), 1);
    let outcome =
        verifier.unlock_access(tree_root(), member(2), proof_for_second(), wallet(1), 50);
    assert_eq!(outcome, failed(tree_root(), wallet(1)));
}

#[test]
fn denial_leaves_the_ledger_as_it_was() {
    let mut verifier = ZKPJWTVerifier::new();
    let root = tree_root();
    verifier.publish_root(root, wallet(9), 1000);
    assert_eq!(verifier.get_last_access(root, wallet(1)), 0);
    let outcome = verifier.unlock_access(root, member(5), proof_for_second(), wallet(1), 1100);
    assert_eq!(outcome, denied(root, wallet(1)));
    assert_eq!(verifier.get_last_access(root, wallet(1)), 0);

    verifier.unlock_access(root, member(2), proof_for_second(), wallet(1), 1200);
    let outcome = verifier.unlock_access(root, member(2), Vec::new(), wallet(1), 1300);
    assert_eq!(outcome, denied(root, wallet(1)));
    assert_eq!(verifier.get_last_access(root, wallet(1)), 1200);
    assert!(verifier.root_exists(root));
    assert_eq!(verifier.get_root_info(root), (wallet(9), 1000, true));
}

#[test]
fn grant_records_the_time_of_the_call() {
    let mut verifier = ZKPJWTVerifier::new();
    let root = tree_root();
    verifier.publish_root(root, wallet(9), 1000);
    let outcome = verifier.unlock_access(root, member(2), proof_for_second(), wallet(1), 2000);
    assert_eq!(outcome.result, Ok(true));
    assert_eq!(verifier.get_last_access(root, wallet(1)), 2000);
    let outcome = verifier.unlock_access(root, member(2), proof_for_second(), wallet(1), 2500);
    assert_eq!(outcome, granted(root, wallet(1), 2500));
    assert_eq!(verifier.get_last_access(root, wallet(1)), 2500);
}

#[test]
fn grant_is_recorded_for_the_caller_alone() {
    let mut verifier = ZKPJWTVerifier::new();
    let root = tree_root();
    verifier.publish_root(root, wallet(9), 1000);
    verifier.publish_root(member(7), wallet(9), 1000);
    verifier.unlock_access(root, member(2), proof_for_second(), wallet(1), 2000);
    assert_eq!(verifier.get_last_access(root, wallet(2)), 0);
    assert_eq!(verifier.get_last_access(member(7), wallet(1)), 0);
    verifier.unlock_access(root, member(2), proof_for_second(), wallet(2), 2100);
    assert_eq!(verifier.get_last_access(root, wallet(1)), 2000);
    assert_eq!(verifier.get_last_access(root, wallet(2)), 2100);
}

#[test]
fn single_node_tree_is_unlocked_by_the_empty_proof() {
    let mut verifier = ZKPJWTVerifier::new();
    verifier.publish_root(member(3), wallet(9), 10);
    let outcome = verifier.unlock_access(member(3), member(3), Vec::new(), wallet(1), 20);
    assert_eq!(outcome, granted(member(3), wallet(1), 20));
    assert_eq!(verifier.get_last_access(member(3), wallet(1)), 20);
}

#[test]
fn republish_keeps_the_second_publisher_and_the_ledger() {
    let mut verifier = ZKPJWTVerifier::new();
    let root = tree_root();
    verifier.publish_root(root, wallet(8), 1000);
    verifier.unlock_access(root, member(2), proof_for_second(), wallet(1), 1500);
    let event = verifier.publish_root(root, wallet(9), 2000);
    assert_eq!(event, Notification::RootPublished { root, publisher: wallet(9), timestamp: 2000 });
    assert!(verifier.root_exists(root));
    assert_eq!(verifier.get_root_info(root), (wallet(9), 2000, true));
    assert_eq!(verifier.get_last_access(root, wallet(1)), 1500);
}

#[test]
fn anyone_may_publish_any_root() {
    let mut verifier = ZKPJWTVerifier::new();
    verifier.publish_root(member(1), wallet(1), 1);
    verifier.publish_root(member(1), wallet(2), 2);
    verifier.publish_root(member(1), wallet(1), 3);
    assert_eq!(verifier.get_root_info(member(1)), (wallet(1), 3, true));
}

#[test]
fn queries_change_nothing() {
    let mut verifier = ZKPJWTVerifier::new();
    let root = tree_root();
    verifier.publish_root(root, wallet(9), 1000);
    verifier.unlock_access(root, member(2), proof_for_second(), wallet(1), 1500);
    for _ in 0..3 {
        assert!(verifier.root_exists(root));
        assert_eq!(verifier.get_root_info(root), (wallet(9), 1000, true));
        assert_eq!(verifier.get_last_access(root, wallet(1)), 1500);
        assert!(verifier.verify_proof(root, member(2), proof_for_second()));
    }
}

#[test]
fn resolve_access_fails_for_an_inactive_root_whatever_the_proof() {
    assert_eq!(resolve_access(false, false, member(1), wallet(1), 5), failed(member(1), wallet(1)));
    assert_eq!(resolve_access(false, true, member(1), wallet(1), 5), failed(member(1), wallet(1)));
}

#[test]
fn resolve_access_grants_a_valid_proof_against_an_active_root() {
    assert_eq!(
        resolve_access(true, true, member(1), wallet(1), 5),
        granted(member(1), wallet(1), 5)
    );
}

#[test]
fn resolve_access_denies_an_invalid_proof_against_an_active_root() {
    assert_eq!(resolve_access(true, false, member(1), wallet(1), 5), denied(member(1), wallet(1)));
}

#[test]
fn settle_access_enters_only_grants() {
    let mut verifier = ZKPJWTVerifier::new();
    let outcome = verifier.settle_access(true, false, member(1), wallet(1), 5);
    assert_eq!(outcome, denied(member(1), wallet(1)));
    assert_eq!(verifier.get_last_access(member(1), wallet(1)), 0);
    let outcome = verifier.settle_access(false, true, member(1), wallet(1), 6);
    assert_eq!(outcome, failed(member(1), wallet(1)));
    assert_eq!(verifier.get_last_access(member(1), wallet(1)), 0);
    let outcome = verifier.settle_access(true, true, member(1), wallet(1), 7);
    assert_eq!(outcome, granted(member(1), wallet(1), 7));
    assert_eq!(verifier.get_last_access(member(1), wallet(1)), 7);
    assert!(!verifier.root_exists(member(1)));
}

#[test]
fn denied_reasons_in_words() {
    assert_eq!(DeniedReason::RootNotFoundOrInactive.message(), "root not found or inactive");
    assert_eq!(DeniedReason::InvalidProof.message(), "invalid proof");
}

#[test]
fn failure_and_denial_are_told_apart() {
    let mut verifier = ZKPJWTVerifier::new();
    let root = tree_root();
    let before = verifier.unlock_access(root, member(5), proof_for_second(), wallet(1), 1);
    verifier.publish_root(root, wallet(9), 2);
    let after = verifier.unlock_access(root, member(5), proof_for_second(), wallet(1), 3);
    assert_eq!(before.result, Err(DeniedReason::RootNotFoundOrInactive));
    assert_eq!(after.result, Ok(false));
    assert_ne!(before.event, after.event);
}
