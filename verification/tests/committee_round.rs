use tari_indexer::committee_round::CommitteeRefusal;
use tari_indexer::committee_round::{CallFailure, validation_rejection_details};
use tari_indexer::committee_round::{CommitteeOutcome, CommitteeRound, CommitteeStep, unique_shard_groups};
use tari_indexer::types::ShardGroup;

#[test]
fn shard_groups_are_asked_once_each_in_order() {
    let a = ShardGroup::new(1u32, 128);
    let b = ShardGroup::new(129u32, 256);
    assert_eq!(unique_shard_groups(&vec![b, a, b, a]), vec![b, a]);
}

#[test]
fn each_group_is_asked_until_a_member_answers() {
    let mut round: CommitteeRound<u32, &str> = CommitteeRound::new(vec![3, 2]);
    assert_eq!(round.next_step(), CommitteeStep::Ask { group: 0, member: 0 });
    round.record(Err("down"));
    assert_eq!(round.next_step(), CommitteeStep::Ask { group: 0, member: 1 });
    round.record(Ok(7));
    assert_eq!(round.next_step(), CommitteeStep::Ask { group: 1, member: 0 });
    round.record(Err("a"));
    round.record(Err("b"));
    assert_eq!(round.next_step(), CommitteeStep::Finished);
    match round.finish() {
        CommitteeOutcome::Results(results) => assert_eq!(results, vec![Ok(7), Err("b")]),
        _ => panic!("expected results"),
    }
}

#[test]
fn a_round_with_no_answer_fails_with_the_last_error() {
    let mut round: CommitteeRound<u32, &str> = CommitteeRound::new(vec![1, 2]);
    round.record(Err("first"));
    round.record(Err("second"));
    round.record(Err("third"));
    match round.finish() {
        CommitteeOutcome::AllValidatorsFailed { committee_size, last_error } => {
            assert_eq!(committee_size, 2);
            assert_eq!(last_error, Some("third"));
        },
        _ => panic!("expected a failure"),
    }
}

#[test]
fn a_request_involving_no_group_has_no_committee() {
    let round: CommitteeRound<u32, &str> = CommitteeRound::new(vec![]);
    assert_eq!(round.next_step(), CommitteeStep::Finished);
    assert!(matches!(round.finish(), CommitteeOutcome::NoCommitteeMembers));
}

#[test]
fn only_a_refused_request_carries_rejection_details() {
    let refused: CommitteeOutcome<u8, CallFailure> = CommitteeOutcome::AllValidatorsFailed {
        committee_size: 2,
        last_error: Some(CallFailure::Status { bad_request: true, details: "fee too low".to_string() }),
    };
    assert_eq!(validation_rejection_details(&refused), Some("fee too low".to_string()));
    let transient: CommitteeOutcome<u8, CallFailure> = CommitteeOutcome::AllValidatorsFailed {
        committee_size: 2,
        last_error: Some(CallFailure::Status { bad_request: false, details: "busy".to_string() }),
    };
    assert_eq!(validation_rejection_details(&transient), None);
    let silent: CommitteeOutcome<u8, CallFailure> =
        CommitteeOutcome::AllValidatorsFailed { committee_size: 1, last_error: Some(CallFailure::Other) };
    assert_eq!(validation_rejection_details(&silent), None);
    let answered: CommitteeOutcome<u8, CallFailure> = CommitteeOutcome::Results(vec![Ok(1)]);
    assert_eq!(validation_rejection_details(&answered), None);
}

#[test]
fn a_group_without_validators_is_refused_before_any_call() {
    assert_eq!(
        CommitteeRound::<u8, u8>::open(vec![2, 0, 0]).err(),
        Some(CommitteeRefusal::NoCommitteeForShardGroup { group: 1 })
    );
    assert_eq!(CommitteeRound::<u8, u8>::open(vec![]).err(), Some(CommitteeRefusal::NoCommitteeMembers));
    let round = CommitteeRound::<u8, u8>::open(vec![1, 3]).ok().unwrap();
    assert_eq!(round.next_step(), CommitteeStep::Ask { group: 0, member: 0 });
}

#[test]
fn when_every_call_fails_the_round_reports_the_last_call_made() {
    let mut round: CommitteeRound<u32, u32> = CommitteeRound::new(vec![2, 1, 3]);
    let mut call = 0u32;
    while let CommitteeStep::Ask { .. } = round.next_step() {
        call += 1;
        round.record(Err(call));
    }
    assert_eq!(call, 6);
    match round.finish() {
        CommitteeOutcome::AllValidatorsFailed { committee_size, last_error } => {
            assert_eq!(committee_size, 3);
            assert_eq!(last_error, Some(6));
        },
        _ => panic!("expected a failure"),
    }
}
