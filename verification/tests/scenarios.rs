use elections::{
    AccountId, ApplicationStatus, CallContext, Contract, ElectionError, ElectionType,
    EligibilityType, VoteOutcome, VotingType,
};
use near_sdk::PromiseError;

const ONE_NEAR: u128 = 1_000_000_000_000_000_000_000_000;

fn account(name: &str) -> AccountId {
    AccountId::new(name.to_string())
}

fn call(caller: &str, now: u64) -> CallContext {
    CallContext {
        predecessor_account_id: account(caller),
        block_timestamp: now,
        attached_deposit: 0,
    }
}

fn privileged_call(caller: &str, now: u64) -> CallContext {
    CallContext {
        predecessor_account_id: account(caller),
        block_timestamp: now,
        attached_deposit: ONE_NEAR,
    }
}

fn create(
    contract: &mut Contract,
    votes_per_voter: u32,
    eligibility: EligibilityType,
    voting_type: VotingType,
    auto_approval: bool,
) -> u64 {
    contract
        .create_election(
            &privileged_call("owner.near", 0),
            "Board".to_string(),
            "Board election".to_string(),
            10,
            20,
            0,
            10,
            votes_per_voter,
            eligibility,
            voting_type,
            auto_approval,
            ElectionType::GeneralElection,
        )
        .expect("the election is created")
}

#[test]
fn scenario_simple_vote_is_accepted_then_capped() {
    let mut contract = Contract::new(account("owner.near"));
    let id = create(&mut contract, 1, EligibilityType::Open, VotingType::Simple, true);
    assert_eq!(id, 0);

    assert_eq!(contract.apply(&call("bob", 5), id, "I am bob".to_string()), Ok(()));
    let bob = contract.get_candidate(id, &account("bob")).expect("bob has applied");
    assert_eq!(bob.status, ApplicationStatus::Approved);
    assert_eq!(bob.approval_date, Some(5));
    assert_eq!(bob.application_date, 5);
    assert_eq!(bob.votes_received, 0);

    let first = contract.vote(&call("alice", 12), id, vec![(account("bob"), 1)]);
    assert!(matches!(first, Ok(VoteOutcome::Value(false))));
    assert_eq!(contract.get_candidate(id, &account("bob")).unwrap().votes_received, 1);
    let cast = contract.get_votes(id, &account("alice")).expect("alice has voted");
    assert_eq!(cast.len(), 1);
    assert_eq!(cast[0].voter, account("alice"));
    assert_eq!(cast[0].candidate_id, account("bob"));
    assert_eq!(cast[0].weight, 1);
    assert_eq!(cast[0].timestamp, 12);

    let second = contract.vote(&call("alice", 13), id, vec![(account("bob"), 1)]);
    assert!(matches!(second, Err(ElectionError::TooManyVotes)));
    assert_eq!(contract.get_candidate(id, &account("bob")).unwrap().votes_received, 1);
    assert_eq!(contract.get_votes(id, &account("alice")).unwrap().len(), 1);
}

#[test]
fn scenario_weighted_batch_over_maximum_is_rejected() {
    let mut contract = Contract::new(account("owner.near"));
    let id = create(&mut contract, 0, EligibilityType::Open, VotingType::Weighted(100), true);
    assert_eq!(contract.apply(&call("aa", 1), id, "A".to_string()), Ok(()));
    assert_eq!(contract.apply(&call("bb", 2), id, "B".to_string()), Ok(()));

    let outcome = contract.vote(
        &call("voter", 15),
        id,
        vec![(account("aa"), 60), (account("bb"), 50)],
    );
    assert!(matches!(outcome, Err(ElectionError::WeightExceeded)));
    assert_eq!(contract.get_candidate(id, &account("aa")).unwrap().votes_received, 0);
    assert_eq!(contract.get_candidate(id, &account("bb")).unwrap().votes_received, 0);
    assert!(contract.get_votes(id, &account("voter")).is_none());
}

#[test]
fn scenario_list_based_vote_fails_when_authority_times_out() {
    let mut contract = Contract::new(account("owner.near"));
    let id = create(
        &mut contract,
        3,
        EligibilityType::ListBased(account("lists.near"), 7),
        VotingType::Simple,
        true,
    );
    assert_eq!(contract.apply(&call("bob", 5), id, "I am bob".to_string()), Ok(()));

    let outcome = contract.vote(&call("alice", 12), id, vec![(account("bob"), 1)]);
    let pending = match outcome {
        Ok(VoteOutcome::Promise(pending)) => pending,
        other => panic!("the vote should wait for the authority, got {:?}", other),
    };
    assert_eq!(contract.get_candidate(id, &account("bob")).unwrap().votes_received, 0);
    assert!(contract.get_votes(id, &account("alice")).is_none());

    let settled = contract.eligible_voting_callback(
        &pending.voter,
        &pending.election,
        pending.votes,
        Err(PromiseError::Failed),
        13,
    );
    assert_eq!(settled, Ok(false));
    assert_eq!(contract.get_candidate(id, &account("bob")).unwrap().votes_received, 0);
    assert!(contract.get_votes(id, &account("alice")).is_none());
}

#[test]
fn scenario_second_application_replaces_the_first() {
    let mut contract = Contract::new(account("owner.near"));
    let id = create(&mut contract, 5, EligibilityType::Open, VotingType::Simple, false);
    assert_eq!(contract.apply(&call("carol", 3), id, "desc1".to_string()), Ok(()));
    assert_eq!(contract.apply(&call("carol", 4), id, "desc2".to_string()), Ok(()));

    let carol = contract.get_candidate(id, &account("carol")).expect("carol has applied");
    assert_eq!(carol.account_id, account("carol"));
    assert_eq!(carol.description, "desc2");
    assert_eq!(carol.votes_received, 0);
    assert_eq!(carol.status, ApplicationStatus::Pending);
    assert_eq!(carol.application_date, 4);
    assert_eq!(carol.approval_date, None);

    let state = contract.into_state();
    assert_eq!(state.candidates.len(), 1);
    assert_eq!(state.candidates[0].len(), 1);
}

#[test]
fn second_application_resets_the_tally() {
    let mut contract = Contract::new(account("owner.near"));
    let id = contract
        .create_election(
            &privileged_call("owner.near", 0),
            "Board".to_string(),
            "Overlapping windows".to_string(),
            10,
            20,
            0,
            10,
            5,
            EligibilityType::Open,
            VotingType::Simple,
            true,
            ElectionType::Referendum,
        )
        .unwrap();
    assert_eq!(contract.apply(&call("carol", 9), id, "desc1".to_string()), Ok(()));
    // Time 10 lies in both windows.
    let voted = contract.vote(&call("alice", 10), id, vec![(account("carol"), 1)]);
    assert!(matches!(voted, Ok(VoteOutcome::Value(false))));
    assert_eq!(contract.get_candidate(id, &account("carol")).unwrap().votes_received, 1);

    assert_eq!(contract.apply(&call("carol", 10), id, "desc2".to_string()), Ok(()));
    let carol = contract.get_candidate(id, &account("carol")).unwrap();
    assert_eq!(carol.description, "desc2");
    assert_eq!(carol.votes_received, 0);
    // The vote itself stays in the ledger.
    assert_eq!(contract.get_votes(id, &account("alice")).unwrap().len(), 1);
}
