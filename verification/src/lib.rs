//! Election registry: nomination and voting windows, candidate applications,
//! voter eligibility and the settlement of vote batches.

use vstd::prelude::*;
use crate::assoc::assoc_map;
use crate::elections::account_names;
use crate::vote::vote_views;

pub mod account;
pub mod assoc;
pub mod elections;
pub mod error;
pub mod ext;
pub mod internal;
pub mod laws;
pub mod model;
pub mod state;
pub mod vote;

pub use crate::account::AccountId;
pub use crate::elections::{
    ApplicationStatus, Candidate, CandidateView, Election, ElectionStatus, ElectionType,
    ElectionTypeView, ElectionView, EligibilityType, EligibilityView,
};
pub use crate::error::ElectionError;
pub use crate::model::ContractView;
pub use crate::state::ContractState;
pub use crate::vote::{
    LedgerEntry, PendingVote, PendingVoteView, RegistrationQuery, RegistrationQueryView, Vote,
    VoteOutcome, VoteView,
};

verus! {

/// Identifier of an election: its position in the order of creation.
pub type ElectionId = u64;

/// How much influence one batch of votes may carry.
#[derive(Debug, Clone, Copy, PartialEq, Eq, Structural)]
pub enum VotingType {
    /// Every vote counts once; a voter has a fixed number of votes.
    Simple,
    /// The voter spreads weights whose sum is at most the given maximum.
    Weighted(u32),
    /// The voter spreads points whose sum is at most the given total.
    PointBased(u32),
}

/// The logical sub-stores of the registry.
#[derive(Debug, Clone, Copy, PartialEq, Eq, Structural)]
pub enum StorageKey {
    Elections,
    Admins,
    Candidates { election_id: u64 },
    Votes,
    VoterEligibility { election_id: u64 },
    CandidateEligibility { election_id: u64 },
    ElectionVotes { election_id: u64 },
}

/// What the host tells of the call that is being served.
#[derive(Debug)]
pub struct CallContext {
    /// The account that made the call.
    pub predecessor_account_id: AccountId,
    /// The time of the block in which the call runs.
    pub block_timestamp: u64,
    /// The deposit attached to the call, in yocto units.
    pub attached_deposit: u128,
}

/// The registry of elections with their candidates and votes.
#[derive(Debug)]
pub struct Contract {
    pub(crate) owner: AccountId,
    pub(crate) admins: Vec<AccountId>,
    /// The elections; each stands at the place of its number.
    pub(crate) elections: Vec<Election>,
    /// For each election its candidates, no account twice.
    pub(crate) candidates: Vec<Vec<Candidate>>,
    /// For each election its voters with their votes, no voter twice.
    pub(crate) votes: Vec<Vec<LedgerEntry>>,
    pub(crate) election_counter: ElectionId,
}

/// The names under which candidates are filed.
pub open spec fn candidate_names(candidates: Seq<Candidate>) -> Seq<Seq<char>> {
    Seq::new(candidates.len(), |i: int| candidates[i].account_id@)
}

/// The candidates' records as mathematical values.
pub open spec fn candidate_views(candidates: Seq<Candidate>) -> Seq<CandidateView> {
    Seq::new(candidates.len(), |i: int| candidates[i]@)
}

/// The candidates of one election by name.
pub open spec fn candidate_map(candidates: Seq<Candidate>) -> Map<Seq<char>, CandidateView> {
    assoc_map(candidate_names(candidates), candidate_views(candidates))
}

/// The names of the voters that have an entry in a ledger.
pub open spec fn voter_names(ledger: Seq<LedgerEntry>) -> Seq<Seq<char>> {
    Seq::new(ledger.len(), |i: int| ledger[i].voter@)
}

/// The votes of each entry of a ledger as mathematical values.
pub open spec fn voter_ballots(ledger: Seq<LedgerEntry>) -> Seq<Seq<VoteView>> {
    Seq::new(ledger.len(), |i: int| vote_views(ledger[i].votes@))
}

/// The votes of one election by voter.
pub open spec fn ledger_map(ledger: Seq<LedgerEntry>) -> Map<Seq<char>, Seq<VoteView>> {
    assoc_map(voter_names(ledger), voter_ballots(ledger))
}

impl View for Contract {
    type V = ContractView;

    open(crate) spec fn view(&self) -> ContractView {
        ContractView {
            owner: self.owner@,
            admins: account_names(self.admins@).to_set(),
            elections: Seq::new(self.elections@.len(), |i: int| self.elections@[i]@),
            candidates: Seq::new(self.candidates@.len(), |i: int| candidate_map(self.candidates@[i]@)),
            votes: Seq::new(self.votes@.len(), |i: int| ledger_map(self.votes@[i]@)),
        }
    }
}

impl Contract {
    /// What the registry keeps of itself: the counter is the number of
    /// elections, every election has its number and ordered windows, and no
    /// account is filed twice in a directory or in a ledger.
    pub open(crate) spec fn wf(&self) -> bool {
        &&& self.election_counter == self.elections@.len()
        &&& self.candidates@.len() == self.elections@.len()
        &&& self.votes@.len() == self.elections@.len()
        &&& forall|i: int|
            0 <= i < self.elections@.len() ==> (#[trigger] self.elections@[i]).id == i
                && self.elections@[i]@.windows_ordered()
        &&& forall|i: int|
            0 <= i < self.candidates@.len() ==> candidate_names(
                #[trigger] self.candidates@[i]@,
            ).no_duplicates()
        &&& forall|i: int|
            0 <= i < self.votes@.len() ==> voter_names(#[trigger] self.votes@[i]@).no_duplicates()
    }

    /// A well-formed registry is a well-formed mathematical value.
    pub proof fn lemma_view_wf(&self)
        requires
            self.wf(),
        ensures
            self@.wf(),
    {
        let view = self@;
        assert forall|i: int, name: Seq<char>|
            0 <= i < view.candidates.len() && view.candidates[i].contains_key(name)
            implies (#[trigger] view.candidates[i][name]).account_id == name by {
            let names = candidate_names(self.candidates@[i]@);
            let j = names.index_of(name);
            assert(0 <= j < names.len() && names[j] == name);
        }
    }

    /// A registry owned by `owner_id`, without administrators and without
    /// elections.
    pub fn new(owner_id: AccountId) -> (contract: Contract)
        ensures
            contract.wf(),
            contract@ == (ContractView {
                owner: owner_id@,
                admins: Set::empty(),
                elections: Seq::empty(),
                candidates: Seq::empty(),
                votes: Seq::empty(),
            }),
    {
        let contract = Contract {
            owner: owner_id,
            admins: Vec::new(),
            elections: Vec::new(),
            candidates: Vec::new(),
            votes: Vec::new(),
            election_counter: 0,
        };
        proof {
            assert(account_names(contract.admins@) =~= Seq::empty());
            assert(account_names(contract.admins@).to_set() =~= Set::empty());
            assert(contract@.elections =~= Seq::empty());
            assert(contract@.candidates =~= Seq::empty());
            assert(contract@.votes =~= Seq::empty());
        }
        contract
    }

    /// The account that owns the registry.
    pub fn owner(&self) -> (owner: &AccountId)
        ensures
            owner@ == self@.owner,
    {
        &self.owner
    }

    /// The number of elections created so far, which is the number that the
    /// next election gets.
    pub fn election_count(&self) -> (count: ElectionId)
        requires
            self.wf(),
        ensures
            count == self@.elections.len(),
    {
        self.election_counter
    }

    /// Whether the registry keeps the named store.
    pub fn has_store(&self, key: StorageKey) -> (kept: bool)
        requires
            self.wf(),
        ensures
            kept == self@.provisioned(key),
    {
        match key {
            StorageKey::Elections => true,
            StorageKey::Admins => true,
            StorageKey::Votes => true,
            StorageKey::Candidates { election_id } => election_id < self.election_counter,
            StorageKey::ElectionVotes { election_id } => election_id < self.election_counter,
            StorageKey::VoterEligibility { election_id: _ } => false,
            StorageKey::CandidateEligibility { election_id: _ } => false,
        }
    }

    /// The election with the given number.
    pub fn get_election(&self, election_id: ElectionId) -> (found: Result<&Election, ElectionError>)
        requires
            self.wf(),
        ensures
            match found {
                Ok(election) => self@.has_election(election_id) && election@
                    == self@.elections[election_id as int],
                Err(error) => !self@.has_election(election_id) && error
                    == ElectionError::ElectionNotFound,
            },
    {
        if election_id >= self.election_counter {
            return Err(ElectionError::ElectionNotFound);
        }
        let elections = self.elections.len();
        assert(election_id < elections);
        Ok(&self.elections[election_id as usize])
    }

    /// The record of a candidate of an election, if the account has applied.
    pub fn get_candidate(&self, election_id: ElectionId, account: &AccountId) -> (found: Option<
        &Candidate,
    >)
        requires
            self.wf(),
        ensures
            match found {
                Some(candidate) => self@.has_election(election_id)
                    && self@.candidates[election_id as int].contains_key(account@) && candidate@
                    == self@.candidates[election_id as int][account@],
                None => !self@.has_election(election_id)
                    || !self@.candidates[election_id as int].contains_key(account@),
            },
    {
        if election_id >= self.election_counter {
            return None;
        }
        let elections = self.candidates.len();
        assert(election_id < elections);
        let idx = election_id as usize;
        let ghost directory = self.candidates@[idx as int]@;
        assert(self@.candidates[idx as int] == candidate_map(directory));
        match crate::vote::find_candidate(&self.candidates[idx], account) {
            Some(place) => {
                proof {
                    crate::assoc::lemma_assoc_at(
                        candidate_names(directory),
                        candidate_views(directory),
                        place as int,
                    );
                }
                Some(&self.candidates[idx][place])
            },
            None => {
                proof {
                    crate::assoc::lemma_assoc_absent(
                        candidate_names(directory),
                        candidate_views(directory),
                        account@,
                    );
                }
                None
            },
        }
    }

    /// The votes that a voter has cast in an election, oldest first, if the
    /// voter has cast any.
    pub fn get_votes(&self, election_id: ElectionId, voter: &AccountId) -> (found: Option<&Vec<Vote>>)
        requires
            self.wf(),
        ensures
            match found {
                Some(votes) => self@.has_election(election_id)
                    && self@.votes[election_id as int].contains_key(voter@) && vote_views(votes@)
                    == self@.votes[election_id as int][voter@],
                None => !self@.has_election(election_id)
                    || !self@.votes[election_id as int].contains_key(voter@),
            },
    {
        if election_id >= self.election_counter {
            return None;
        }
        let elections = self.votes.len();
        assert(election_id < elections);
        let idx = election_id as usize;
        let ghost ledger = self.votes@[idx as int]@;
        assert(self@.votes[idx as int] == ledger_map(ledger));
        match crate::vote::find_voter(&self.votes[idx], voter) {
            Some(place) => {
                proof {
                    crate::assoc::lemma_assoc_at(
                        voter_names(ledger),
                        voter_ballots(ledger),
                        place as int,
                    );
                }
                Some(&self.votes[idx][place].votes)
            },
            None => {
                proof {
                    crate::assoc::lemma_assoc_absent(
                        voter_names(ledger),
                        voter_ballots(ledger),
                        voter@,
                    );
                }
                None
            },
        }
    }
}

} // verus!
