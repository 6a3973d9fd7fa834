use elections::ext::{callback_gas, list_query_gas, minimum_deposit, NO_DEPOSIT, XCC_SUCCESS};
use elections::{
    AccountId, ApplicationStatus, CallContext, Contract, ContractState, ElectionError,
    ElectionStatus, ElectionType, EligibilityType, StorageKey, VotingType,
};

const NEAR: u128 = 1_000_000_000_000_000_000_000_000;

fn id_of(name: &str) -> AccountId {
    AccountId::new(name.to_string())
}

fn ctx(caller: &str, now: u64, deposit: u128) -> CallContext {
    CallContext { predecessor_account_id: id_of(caller), block_timestamp: now, attached_deposit: deposit }
}

fn create_with_windows(
    contract: &mut Contract,
    caller: &CallContext,
    start: u64,
    end: u64,
    nomination_start: u64,
    nomination_end: u64,
) -> Result<u64, ElectionError> {
    contract.create_election(
        caller,
        "Title".to_string(),
        "Description".to_string(),
        start,
        end,
        nomination_start,
        nomination_end,
        2,
        EligibilityType::Open,
        VotingType::Simple,
        false,
        ElectionType::CommitteeElection,
    )
}

#[test]
fn account_id_keeps_its_name() {
    let alice = id_of("alice.near");
    assert_eq!(alice.as_str(), "alice.near");
    assert!(alice.same(&id_of("alice.near")));
    assert!(!alice.same(&id_of("alice.nea")));
    assert_eq!(alice.clone(), alice);
    assert_ne!(alice, id_of("bob.near"));
}

#[test]
fn new_registry_is_empty() {
    let contract = Contract::new(id_of("owner.near"));
    assert_eq!(contract.owner(), &id_of("owner.near"));
    assert_eq!(contract.election_count(), 0);
    assert!(matches!(contract.get_election(0), Err(ElectionError::ElectionNotFound)));
    assert!(contract.get_candidate(0, &id_of("bob")).is_none());
    assert!(contract.get_votes(0, &id_of("bob")).is_none());
    assert_eq!(contract.votes_cast(0, &id_of("bob")), 0);
    let state = contract.into_state();
    assert!(state.admins.is_empty());
    assert!(state.elections.is_empty());
    assert!(state.candidates.is_empty());
    assert!(state.votes.is_empty());
}

#[test]
fn units_of_gas_and_deposit() {
    assert_eq!(list_query_gas(), 5_000_000_000_000);
    assert_eq!(callback_gas(), 1_000_000_000_000);
    assert_eq!(minimum_deposit(), NEAR);
    assert_eq!(XCC_SUCCESS, 1);
    assert_eq!(NO_DEPOSIT, 0);
}

#[test]
fn created_election_is_stored_as_given() {
    let mut contract = Contract::new(id_of("owner.near"));
    let id = contract
        .create_election(
            &ctx("owner.near", 3, NEAR),
            "Title".to_string(),
            "Description".to_string(),
            100,
            200,
            10,
            50,
            4,
            EligibilityType::ListBased(id_of("lists.near"), 9),
            VotingType::PointBased(30),
            true,
            ElectionType::Custom("poll".to_string(), Some(id_of("dao.near"))),
        )
        .unwrap();
    assert_eq!(id, 0);
    assert_eq!(contract.election_count(), 1);
    let election = contract.get_election(0).unwrap();
    assert_eq!(election.id, 0);
    assert_eq!(election.title, "Title");
    assert_eq!(election.description, "Description");
    assert_eq!(election.start_date, 100);
    assert_eq!(election.end_date, 200);
    assert_eq!(election.nomination_start_date, 10);
    assert_eq!(election.nomination_end_date, 50);
    assert_eq!(election.votes_per_voter, 4);
    assert_eq!(election.voting_type, VotingType::PointBased(30));
    assert!(matches!(&election.voter_eligibility, EligibilityType::ListBased(a, 9) if a == &id_of("lists.near")));
    assert!(election.auto_approval);
    assert_eq!(election.owner, id_of("owner.near"));
    assert_eq!(election.creating_project, id_of("owner.near"));
    assert_eq!(election.status, ElectionStatus::Pending);
    assert_eq!(election.challenge_period_end, None);
    assert!(election.winner_ids.is_empty());
    assert!(matches!(&election.election_type, ElectionType::Custom(n, Some(a)) if n == "poll" && a == &id_of("dao.near")));
    let state = contract.into_state();
    assert_eq!(state.candidates.len(), 1);
    assert!(state.candidates[0].is_empty());
    assert_eq!(state.votes.len(), 1);
    assert!(state.votes[0].is_empty());
}

#[test]
fn election_numbers_grow_by_one() {
    let mut contract = Contract::new(id_of("owner.near"));
    let caller = ctx("owner.near", 0, NEAR);
    assert_eq!(create_with_windows(&mut contract, &caller, 10, 20, 0, 10), Ok(0));
    assert_eq!(create_with_windows(&mut contract, &caller, 10, 20, 0, 10), Ok(1));
    assert_eq!(create_with_windows(&mut contract, &caller, 30, 40, 0, 5), Ok(2));
    assert_eq!(contract.election_count(), 3);
    assert_eq!(contract.get_election(2).unwrap().start_date, 30);
    assert_eq!(contract.get_election(1).unwrap().id, 1);
}

#[test]
fn nomination_may_end_when_voting_starts() {
    let mut contract = Contract::new(id_of("owner.near"));
    let caller = ctx("owner.near", 0, NEAR);
    assert_eq!(create_with_windows(&mut contract, &caller, 10, 11, 0, 10), Ok(0));
    let election = contract.get_election(0).unwrap();
    assert!(election.nomination_end_date <= election.start_date);
    assert!(election.start_date < election.end_date);
}

#[test]
fn disordered_windows_create_nothing() {
    let mut contract = Contract::new(id_of("owner.near"));
    let caller = ctx("owner.near", 0, NEAR);
    assert_eq!(
        create_with_windows(&mut contract, &caller, 10, 20, 0, 11),
        Err(ElectionError::NominationOverlapsVoting)
    );
    assert_eq!(
        create_with_windows(&mut contract, &caller, 10, 10, 0, 10),
        Err(ElectionError::EmptyVotingWindow)
    );
    assert_eq!(
        create_with_windows(&mut contract, &caller, 10, 9, 0, 5),
        Err(ElectionError::EmptyVotingWindow)
    );
    // Both orders are broken: the nomination is looked at first.
    assert_eq!(
        create_with_windows(&mut contract, &caller, 10, 5, 0, 11),
        Err(ElectionError::NominationOverlapsVoting)
    );
    assert_eq!(contract.election_count(), 0);
    assert!(!contract.has_store(StorageKey::Candidates { election_id: 0 }));
    assert!(!contract.has_store(StorageKey::ElectionVotes { election_id: 0 }));
    let state = contract.into_state();
    assert!(state.elections.is_empty());
    assert!(state.candidates.is_empty());
    assert!(state.votes.is_empty());
}

#[test]
fn stores_follow_elections() {
    let mut contract = Contract::new(id_of("owner.near"));
    assert!(contract.has_store(StorageKey::Elections));
    assert!(contract.has_store(StorageKey::Admins));
    assert!(contract.has_store(StorageKey::Votes));
    assert!(!contract.has_store(StorageKey::Candidates { election_id: 0 }));
    assert_eq!(create_with_windows(&mut contract, &ctx("owner.near", 0, NEAR), 10, 20, 0, 10), Ok(0));
    assert!(contract.has_store(StorageKey::Candidates { election_id: 0 }));
    assert!(contract.has_store(StorageKey::ElectionVotes { election_id: 0 }));
    assert!(!contract.has_store(StorageKey::Candidates { election_id: 1 }));
    assert!(!contract.has_store(StorageKey::ElectionVotes { election_id: 1 }));
    assert!(!contract.has_store(StorageKey::VoterEligibility { election_id: 0 }));
    assert!(!contract.has_store(StorageKey::CandidateEligibility { election_id: 0 }));
}

#[test]
fn creation_needs_privilege_and_deposit() {
    let mut contract = Contract::new(id_of("owner.near"));
    assert_eq!(
        create_with_windows(&mut contract, &ctx("mallory.near", 0, NEAR), 10, 20, 0, 10),
        Err(ElectionError::NotAdminOrOwner)
    );
    assert_eq!(
        create_with_windows(&mut contract, &ctx("owner.near", 0, NEAR - 1), 10, 20, 0, 10),
        Err(ElectionError::InsufficientDeposit)
    );
    assert_eq!(
        create_with_windows(&mut contract, &ctx("owner.near", 0, 1), 10, 20, 0, 10),
        Err(ElectionError::InsufficientDeposit)
    );
    // Privilege is looked at before the deposit, the deposit before the windows.
    assert_eq!(
        create_with_windows(&mut contract, &ctx("mallory.near", 0, 0), 10, 5, 0, 11),
        Err(ElectionError::NotAdminOrOwner)
    );
    assert_eq!(
        create_with_windows(&mut contract, &ctx("owner.near", 0, 0), 10, 5, 0, 11),
        Err(ElectionError::InsufficientDeposit)
    );
    assert_eq!(contract.election_count(), 0);
    assert_eq!(create_with_windows(&mut contract, &ctx("owner.near", 0, NEAR), 10, 20, 0, 10), Ok(0));
    assert_eq!(create_with_windows(&mut contract, &ctx("owner.near", 0, NEAR + 1), 10, 20, 0, 10), Ok(1));
}

#[test]
fn privilege_of_owner_and_administrators() {
    let state = ContractState {
        owner: id_of("owner.near"),
        admins: vec![id_of("admin1.near"), id_of("admin2.near")],
        elections: vec![],
        candidates: vec![],
        votes: vec![],
    };
    let mut contract = Contract::from_state(state).expect("the state is well formed");
    let by_owner = ctx("owner.near", 0, NEAR);
    let by_admin = ctx("admin2.near", 0, NEAR);
    let by_other = ctx("other.near", 0, NEAR);

    assert!(contract.is_owner(&by_owner, None));
    assert!(!contract.is_owner(&by_admin, None));
    assert!(contract.is_owner(&by_other, Some(&id_of("owner.near"))));
    assert!(!contract.is_owner(&by_owner, Some(&id_of("other.near"))));

    assert!(!contract.is_admin(&by_owner, None));
    assert!(contract.is_admin(&by_admin, None));
    assert!(contract.is_admin(&by_other, Some(&id_of("admin1.near"))));
    assert!(!contract.is_admin(&by_admin, Some(&id_of("other.near"))));

    assert!(contract.is_owner_or_admin(&by_owner, None));
    assert!(contract.is_owner_or_admin(&by_admin, None));
    assert!(!contract.is_owner_or_admin(&by_other, None));
    assert!(contract.is_owner_or_admin(&by_other, Some(&id_of("admin2.near"))));

    assert_eq!(contract.assert_admin_or_owner(&by_owner), Ok(()));
    assert_eq!(contract.assert_admin_or_owner(&by_admin), Ok(()));
    assert_eq!(contract.assert_admin_or_owner(&by_other), Err(ElectionError::NotAdminOrOwner));
    assert_eq!(
        contract.assert_admin_or_owner(&ctx("admin1.near", 0, NEAR - 1)),
        Err(ElectionError::InsufficientDeposit)
    );
    assert_eq!(contract.assert_at_least_one_yocto(&ctx("other.near", 0, NEAR)), Ok(()));
    assert_eq!(
        contract.assert_at_least_one_yocto(&ctx("other.near", 0, NEAR - 1)),
        Err(ElectionError::InsufficientDeposit)
    );

    assert_eq!(create_with_windows(&mut contract, &by_admin, 10, 20, 0, 10), Ok(0));
    assert_eq!(contract.get_election(0).unwrap().owner, id_of("admin2.near"));
}

#[test]
fn applications_are_taken_in_the_nomination_window_only() {
    let mut contract = Contract::new(id_of("owner.near"));
    assert_eq!(create_with_windows(&mut contract, &ctx("owner.near", 0, NEAR), 30, 40, 10, 20), Ok(0));

    assert_eq!(
        contract.apply(&ctx("early", 9, 0), 0, "too early".to_string()),
        Err(ElectionError::NominationNotActive)
    );
    assert_eq!(
        contract.apply(&ctx("late", 21, 0), 0, "too late".to_string()),
        Err(ElectionError::NominationNotActive)
    );
    assert_eq!(
        contract.apply(&ctx("nowhere", 15, 0), 1, "no such election".to_string()),
        Err(ElectionError::ElectionNotFound)
    );
    assert!(contract.get_candidate(0, &id_of("early")).is_none());
    assert!(contract.get_candidate(0, &id_of("late")).is_none());

    assert_eq!(contract.apply(&ctx("first", 10, 0), 0, "at the start".to_string()), Ok(()));
    assert_eq!(contract.apply(&ctx("last", 20, 0), 0, "at the end".to_string()), Ok(()));
    let first = contract.get_candidate(0, &id_of("first")).unwrap();
    assert_eq!(first.status, ApplicationStatus::Pending);
    assert_eq!(first.approval_date, None);
    assert_eq!(first.application_date, 10);
    assert_eq!(first.description, "at the start");
    assert_eq!(contract.get_candidate(0, &id_of("last")).unwrap().application_date, 20);
    assert_eq!(contract.into_state().candidates[0].len(), 2);
}

#[test]
fn candidates_are_kept_apart_by_election() {
    let mut contract = Contract::new(id_of("owner.near"));
    let owner = ctx("owner.near", 0, NEAR);
    assert_eq!(create_with_windows(&mut contract, &owner, 30, 40, 10, 20), Ok(0));
    assert_eq!(create_with_windows(&mut contract, &owner, 30, 40, 10, 20), Ok(1));
    assert_eq!(contract.apply(&ctx("bob", 12, 0), 1, "in the second".to_string()), Ok(()));
    assert!(contract.get_candidate(0, &id_of("bob")).is_none());
    assert_eq!(contract.get_candidate(1, &id_of("bob")).unwrap().description, "in the second");
}

#[test]
fn review_sets_the_status_whatever_it_was() {
    let mut contract = Contract::new(id_of("owner.near"));
    assert_eq!(create_with_windows(&mut contract, &ctx("owner.near", 0, NEAR), 30, 40, 10, 20), Ok(0));
    assert_eq!(contract.apply(&ctx("bob", 12, 0), 0, "bob".to_string()), Ok(()));

    let review = |contract: &mut Contract, now: u64, status: ApplicationStatus| {
        contract.review_application(&ctx("owner.near", now, NEAR), 0, id_of("bob"), status)
    };
    assert_eq!(review(&mut contract, 13, ApplicationStatus::Approved), Ok(()));
    let bob = contract.get_candidate(0, &id_of("bob")).unwrap();
    assert_eq!(bob.status, ApplicationStatus::Approved);
    assert_eq!(bob.approval_date, Some(13));

    assert_eq!(review(&mut contract, 14, ApplicationStatus::Rejected), Ok(()));
    let bob = contract.get_candidate(0, &id_of("bob")).unwrap();
    assert_eq!(bob.status, ApplicationStatus::Rejected);
    assert_eq!(bob.approval_date, Some(13));

    assert_eq!(review(&mut contract, 99, ApplicationStatus::Approved), Ok(()));
    let bob = contract.get_candidate(0, &id_of("bob")).unwrap();
    assert_eq!(bob.status, ApplicationStatus::Approved);
    assert_eq!(bob.approval_date, Some(99));

    assert_eq!(review(&mut contract, 100, ApplicationStatus::Pending), Ok(()));
    let bob = contract.get_candidate(0, &id_of("bob")).unwrap();
    assert_eq!(bob.status, ApplicationStatus::Pending);
    assert_eq!(bob.approval_date, Some(99));
    assert_eq!(bob.application_date, 12);
    assert_eq!(bob.description, "bob");
    assert_eq!(bob.votes_received, 0);
}

#[test]
fn second_review_with_the_same_status_changes_nothing() {
    let mut contract = Contract::new(id_of("owner.near"));
    assert_eq!(create_with_windows(&mut contract, &ctx("owner.near", 0, NEAR), 30, 40, 10, 20), Ok(0));
    assert_eq!(contract.apply(&ctx("bob", 12, 0), 0, "bob".to_string()), Ok(()));
    let owner_at = |now: u64| ctx("owner.near", now, NEAR);

    assert_eq!(contract.review_application(&owner_at(13), 0, id_of("bob"), ApplicationStatus::Rejected), Ok(()));
    let once = contract.get_candidate(0, &id_of("bob")).unwrap().clone();
    assert_eq!(contract.review_application(&owner_at(50), 0, id_of("bob"), ApplicationStatus::Rejected), Ok(()));
    let twice = contract.get_candidate(0, &id_of("bob")).unwrap();
    assert_eq!(twice.status, once.status);
    assert_eq!(twice.approval_date, once.approval_date);
    assert_eq!(twice.approval_date, None);

    assert_eq!(contract.review_application(&owner_at(60), 0, id_of("bob"), ApplicationStatus::Approved), Ok(()));
    assert_eq!(contract.review_application(&owner_at(60), 0, id_of("bob"), ApplicationStatus::Approved), Ok(()));
    let bob = contract.get_candidate(0, &id_of("bob")).unwrap();
    assert_eq!(bob.status, ApplicationStatus::Approved);
    assert_eq!(bob.approval_date, Some(60));
}

#[test]
fn review_is_refused_without_privilege_or_candidate() {
    let mut contract = Contract::new(id_of("owner.near"));
    assert_eq!(create_with_windows(&mut contract, &ctx("owner.near", 0, NEAR), 30, 40, 10, 20), Ok(0));
    assert_eq!(contract.apply(&ctx("bob", 12, 0), 0, "bob".to_string()), Ok(()));

    assert_eq!(
        contract.review_application(&ctx("bob", 13, NEAR), 0, id_of("bob"), ApplicationStatus::Approved),
        Err(ElectionError::NotAdminOrOwner)
    );
    assert_eq!(
        contract.review_application(&ctx("owner.near", 13, 0), 0, id_of("bob"), ApplicationStatus::Approved),
        Err(ElectionError::InsufficientDeposit)
    );
    assert_eq!(
        contract.review_application(&ctx("owner.near", 13, NEAR), 1, id_of("bob"), ApplicationStatus::Approved),
        Err(ElectionError::CandidatesNotFound)
    );
    assert_eq!(
        contract.review_application(&ctx("owner.near", 13, NEAR), 0, id_of("carol"), ApplicationStatus::Approved),
        Err(ElectionError::CandidateNotFound)
    );
    let bob = contract.get_candidate(0, &id_of("bob")).unwrap();
    assert_eq!(bob.status, ApplicationStatus::Pending);
    assert_eq!(bob.approval_date, None);
}

#[test]
fn error_messages() {
    assert_eq!(ElectionError::NotAdminOrOwner.message(), "Only contract admin or owner can call this method");
    assert_eq!(ElectionError::InsufficientDeposit.message(), "At least one yoctoNEAR must be attached");
    assert_eq!(ElectionError::NominationOverlapsVoting.message(), "Nomination must end before voting starts");
    assert_eq!(ElectionError::EmptyVotingWindow.message(), "Start date must be before end date");
    assert_eq!(ElectionError::ElectionIdsExhausted.message(), "Election identifiers are exhausted");
    assert_eq!(ElectionError::ElectionNotFound.message(), "Election not found");
    assert_eq!(ElectionError::NominationNotActive.message(), "Nomination period is not active");
    assert_eq!(ElectionError::CandidatesNotFound.message(), "Candidates map not found");
    assert_eq!(ElectionError::CandidateNotFound.message(), "Candidate not found");
    assert_eq!(ElectionError::VotingNotActive.message(), "Voting period is not active");
    assert_eq!(ElectionError::VotesNotFound.message(), "Votes not found for election");
    assert_eq!(ElectionError::TooManyVotes.message(), "Exceeds allowed number of votes");
    assert_eq!(ElectionError::WeightExceeded.message(), "Exceeds maximum allowed weight");
    assert_eq!(ElectionError::PointsExceeded.message(), "Exceeds total allowed points");
    assert_eq!(ElectionError::TallyOverflow.message(), "Candidate tally overflows");
    assert_eq!(ElectionError::UnsupportedEligibility.message(), "not implemented");
}
