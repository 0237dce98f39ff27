use vote_ledger::voting::VotingContract;

const ALICE: u64 = 1;
const BOB: u64 = 2;
const CAROL: u64 = 3;

#[test]
fn scenario_reaches_quorum() {
    let mut ledger = VotingContract::new(String::from("Reach quorum"), 3);
    ledger.vote(ALICE);
    ledger.vote(ALICE);
    ledger.vote(ALICE);
    ledger.vote(BOB);
    assert_eq!(ledger.what_my_vote(ALICE), 2);
    assert_eq!(ledger.what_my_vote(BOB), 1);
    assert_eq!(ledger.get_current_vote_count(), 3);
    assert!(ledger.check());
}

#[test]
fn scenario_below_threshold() {
    let mut ledger = VotingContract::new(String::from("X"), 100);
    ledger.vote(ALICE);
    assert!(!ledger.check());
    assert_eq!(ledger.what_my_vote(ALICE), 1);
}

#[test]
fn fresh_account_has_zero_votes() {
    let ledger = VotingContract::new(String::from("anything"), 7);
    assert_eq!(ledger.what_my_vote(ALICE), 0);
    assert_eq!(ledger.what_my_vote(u64::MAX), 0);
    assert_eq!(ledger.get_current_vote_count(), 0);
}

#[test]
fn votes_saturate_at_two() {
    let mut ledger = VotingContract::new(String::from("cap"), 10);
    for _ in 0..5 {
        ledger.vote(ALICE);
    }
    assert_eq!(ledger.what_my_vote(ALICE), 2);
    assert_eq!(ledger.get_current_vote_count(), 2);
}

#[test]
fn aggregate_sums_capped_counts() {
    let mut ledger = VotingContract::new(String::from("sum"), 0);
    ledger.vote(ALICE);
    ledger.vote(BOB);
    ledger.vote(BOB);
    ledger.vote(CAROL);
    ledger.vote(CAROL);
    ledger.vote(CAROL);
    assert_eq!(ledger.what_my_vote(ALICE), 1);
    assert_eq!(ledger.what_my_vote(BOB), 2);
    assert_eq!(ledger.what_my_vote(CAROL), 2);
    assert_eq!(ledger.get_current_vote_count(), 5);
}

#[test]
fn threshold_check_tracks_aggregate() {
    let zero = VotingContract::default();
    assert!(zero.check());
    assert_eq!(zero.get_current_vote_count(), 0);
    assert_eq!(zero.get_threshold(), 0);
    assert_eq!(zero.get_statement(), String::new());

    let mut one = VotingContract::new(String::from("one"), 1);
    assert!(!one.check());
    one.vote(ALICE);
    assert!(one.check());
}

#[test]
fn construction_is_repeatable() {
    let a = VotingContract::new(String::from("same"), 5);
    let b = VotingContract::new(String::from("same"), 5);
    assert_eq!(a.get_statement(), b.get_statement());
    assert_eq!(a.get_threshold(), b.get_threshold());
    assert_eq!(a.get_current_vote_count(), b.get_current_vote_count());
    assert_eq!(a.what_my_vote(ALICE), b.what_my_vote(ALICE));
    assert_eq!(a.what_my_vote(BOB), b.what_my_vote(BOB));
    assert_eq!(a.check(), b.check());
}

#[test]
fn configuration_is_kept() {
    let mut ledger = VotingContract::new(String::from("keep me"), 42);
    ledger.vote(ALICE);
    assert_eq!(ledger.get_statement(), String::from("keep me"));
    assert_eq!(ledger.get_threshold(), 42);
}
