//! Elections and the candidates that apply to them.

use vstd::prelude::*;
use crate::account::AccountId;
use crate::assoc::{lemma_assoc_absent, lemma_assoc_at, lemma_assoc_empty, lemma_assoc_push, lemma_assoc_update};
use crate::error::ElectionError;
use crate::model::{application, new_election, reviewed};
use crate::vote::LedgerEntry;
use crate::{
    candidate_map, candidate_names, candidate_views, voter_ballots, voter_names, CallContext,
    Contract, ElectionId, VotingType,
};

verus! {

/// What an election is held about. The tag describes; no rule depends on it.
#[derive(Debug)]
pub enum ElectionType {
    GeneralElection,
    Referendum,
    TokenHolderVote,
    CommitteeElection,
    ProjectProposal(AccountId),
    Pot(AccountId),
    Custom(String, Option<AccountId>),
}

/// An [`ElectionType`] as a mathematical value.
pub enum ElectionTypeView {
    GeneralElection,
    Referendum,
    TokenHolderVote,
    CommitteeElection,
    ProjectProposal(Seq<char>),
    Pot(Seq<char>),
    Custom(Seq<char>, Option<Seq<char>>),
}

impl View for ElectionType {
    type V = ElectionTypeView;

    open spec fn view(&self) -> ElectionTypeView {
        match self {
            ElectionType::GeneralElection => ElectionTypeView::GeneralElection,
            ElectionType::Referendum => ElectionTypeView::Referendum,
            ElectionType::TokenHolderVote => ElectionTypeView::TokenHolderVote,
            ElectionType::CommitteeElection => ElectionTypeView::CommitteeElection,
            ElectionType::ProjectProposal(project) => ElectionTypeView::ProjectProposal(project@),
            ElectionType::Pot(pot) => ElectionTypeView::Pot(pot@),
            ElectionType::Custom(name, account) => ElectionTypeView::Custom(
                name@,
                match account {
                    Some(a) => Some(a@),
                    None => None,
                },
            ),
        }
    }
}

impl Clone for ElectionType {
    fn clone(&self) -> (copy: ElectionType)
        ensures
            copy@ == self@,
    {
        match self {
            ElectionType::GeneralElection => ElectionType::GeneralElection,
            ElectionType::Referendum => ElectionType::Referendum,
            ElectionType::TokenHolderVote => ElectionType::TokenHolderVote,
            ElectionType::CommitteeElection => ElectionType::CommitteeElection,
            ElectionType::ProjectProposal(project) => ElectionType::ProjectProposal(project.clone()),
            ElectionType::Pot(pot) => ElectionType::Pot(pot.clone()),
            ElectionType::Custom(name, account) => {
                let account_copy = match account {
                    Some(a) => Some(a.clone()),
                    None => None,
                };
                ElectionType::Custom(name.clone(), account_copy)
            },
        }
    }
}

/// State of a candidate's application.
#[derive(Debug, Clone, Copy, PartialEq, Eq, Structural)]
pub enum ApplicationStatus {
    Pending,
    Approved,
    Rejected,
}

/// An account that has applied to stand in one election.
#[derive(Debug)]
pub struct Candidate {
    pub account_id: AccountId,
    pub description: String,
    pub status: ApplicationStatus,
    /// Sum of the weights of the votes received, not their number.
    pub votes_received: u64,
    pub application_date: u64,
    pub approval_date: Option<u64>,
}

/// A [`Candidate`] as a mathematical value.
pub struct CandidateView {
    pub account_id: Seq<char>,
    pub description: Seq<char>,
    pub status: ApplicationStatus,
    pub votes_received: u64,
    pub application_date: u64,
    pub approval_date: Option<u64>,
}

impl View for Candidate {
    type V = CandidateView;

    open spec fn view(&self) -> CandidateView {
        CandidateView {
            account_id: self.account_id@,
            description: self.description@,
            status: self.status,
            votes_received: self.votes_received,
            application_date: self.application_date,
            approval_date: self.approval_date,
        }
    }
}

impl Clone for Candidate {
    fn clone(&self) -> (copy: Candidate)
        ensures
            copy@ == self@,
    {
        Candidate {
            account_id: self.account_id.clone(),
            description: self.description.clone(),
            status: self.status,
            votes_received: self.votes_received,
            application_date: self.application_date,
            approval_date: self.approval_date,
        }
    }
}

/// Who may vote in an election.
#[derive(Debug)]
pub enum EligibilityType {
    /// Everybody may vote.
    Open,
    /// Members of a list kept by an outside authority: the authority and the
    /// list's number.
    ListBased(AccountId, u128),
    /// Holders of a token: the token's contract and the least balance.
    TokenBased(AccountId, u128),
    /// A rule kept by some other contract.
    Custom(String),
}

/// An [`EligibilityType`] as a mathematical value.
pub enum EligibilityView {
    Open,
    ListBased(Seq<char>, u128),
    TokenBased(Seq<char>, u128),
    Custom(Seq<char>),
}

impl View for EligibilityType {
    type V = EligibilityView;

    open spec fn view(&self) -> EligibilityView {
        match self {
            EligibilityType::Open => EligibilityView::Open,
            EligibilityType::ListBased(authority, list) => EligibilityView::ListBased(authority@, *list),
            EligibilityType::TokenBased(token, balance) => EligibilityView::TokenBased(token@, *balance),
            EligibilityType::Custom(rule) => EligibilityView::Custom(rule@),
        }
    }
}

impl Clone for EligibilityType {
    fn clone(&self) -> (copy: EligibilityType)
        ensures
            copy@ == self@,
    {
        match self {
            EligibilityType::Open => EligibilityType::Open,
            EligibilityType::ListBased(authority, list) => EligibilityType::ListBased(authority.clone(), *list),
            EligibilityType::TokenBased(token, balance) => EligibilityType::TokenBased(token.clone(), *balance),
            EligibilityType::Custom(rule) => EligibilityType::Custom(rule.clone()),
        }
    }
}

/// Stage of an election's life. Only `Pending` is ever assigned.
#[derive(Debug, Clone, Copy, PartialEq, Eq, Structural)]
pub enum ElectionStatus {
    Pending,
    NominationPeriod,
    VotingPeriod,
    ChallengePeriod,
    Completed,
    Cancelled,
}

/// A voting event with its nomination and voting windows. Times are
/// timestamps of the hosting chain.
#[derive(Debug)]
pub struct Election {
    pub id: ElectionId,
    pub title: String,
    pub description: String,
    /// Start of the voting window.
    pub start_date: u64,
    /// End of the voting window.
    pub end_date: u64,
    pub nomination_start_date: u64,
    pub nomination_end_date: u64,
    /// Votes that one voter may cast; it counts under `VotingType::Simple` only.
    pub votes_per_voter: u32,
    pub voting_type: VotingType,
    pub voter_eligibility: EligibilityType,
    pub auto_approval: bool,
    pub owner: AccountId,
    pub status: ElectionStatus,
    pub challenge_period_end: Option<u64>,
    pub winner_ids: Vec<AccountId>,
    pub election_type: ElectionType,
    pub creating_project: AccountId,
}

/// An [`Election`] as a mathematical value.
pub struct ElectionView {
    pub id: ElectionId,
    pub title: Seq<char>,
    pub description: Seq<char>,
    pub start_date: u64,
    pub end_date: u64,
    pub nomination_start_date: u64,
    pub nomination_end_date: u64,
    pub votes_per_voter: u32,
    pub voting_type: VotingType,
    pub voter_eligibility: EligibilityView,
    pub auto_approval: bool,
    pub owner: Seq<char>,
    pub status: ElectionStatus,
    pub challenge_period_end: Option<u64>,
    pub winner_ids: Seq<Seq<char>>,
    pub election_type: ElectionTypeView,
    pub creating_project: Seq<char>,
}

impl ElectionView {
    /// Nomination ends no later than voting starts, and voting starts before
    /// it ends.
    pub open spec fn windows_ordered(self) -> bool {
        self.nomination_end_date <= self.start_date < self.end_date
    }

    /// `now` lies in the nomination window, both ends included.
    pub open spec fn nomination_active(self, now: u64) -> bool {
        self.nomination_start_date <= now <= self.nomination_end_date
    }

    /// `now` lies in the voting window, both ends included.
    pub open spec fn voting_active(self, now: u64) -> bool {
        self.start_date <= now <= self.end_date
    }
}

/// The names of a sequence of accounts.
pub open spec fn account_names(accounts: Seq<AccountId>) -> Seq<Seq<char>> {
    Seq::new(accounts.len(), |i: int| accounts[i]@)
}

impl View for Election {
    type V = ElectionView;

    open spec fn view(&self) -> ElectionView {
        ElectionView {
            id: self.id,
            title: self.title@,
            description: self.description@,
            start_date: self.start_date,
            end_date: self.end_date,
            nomination_start_date: self.nomination_start_date,
            nomination_end_date: self.nomination_end_date,
            votes_per_voter: self.votes_per_voter,
            voting_type: self.voting_type,
            voter_eligibility: self.voter_eligibility@,
            auto_approval: self.auto_approval,
            owner: self.owner@,
            status: self.status,
            challenge_period_end: self.challenge_period_end,
            winner_ids: account_names(self.winner_ids@),
            election_type: self.election_type@,
            creating_project: self.creating_project@,
        }
    }
}

/// A copy of a list of accounts.
pub fn clone_accounts(accounts: &Vec<AccountId>) -> (copy: Vec<AccountId>)
    ensures
        account_names(copy@) == account_names(accounts@),
{
    let mut copy: Vec<AccountId> = Vec::new();
    let mut i: usize = 0;
    while i < accounts.len()
        invariant
            i <= accounts.len(),
            copy.len() == i,
            forall|j: int| 0 <= j < i ==> copy[j]@ == accounts[j]@,
        decreases accounts.len() - i,
    {
        copy.push(accounts[i].clone());
        i += 1;
    }
    assert(account_names(copy@) =~= account_names(accounts@));
    copy
}

impl Clone for Election {
    fn clone(&self) -> (copy: Election)
        ensures
            copy@ == self@,
    {
        Election {
            id: self.id,
            title: self.title.clone(),
            description: self.description.clone(),
            start_date: self.start_date,
            end_date: self.end_date,
            nomination_start_date: self.nomination_start_date,
            nomination_end_date: self.nomination_end_date,
            votes_per_voter: self.votes_per_voter,
            voting_type: self.voting_type,
            voter_eligibility: self.voter_eligibility.clone(),
            auto_approval: self.auto_approval,
            owner: self.owner.clone(),
            status: self.status,
            challenge_period_end: self.challenge_period_end,
            winner_ids: clone_accounts(&self.winner_ids),
            election_type: self.election_type.clone(),
            creating_project: self.creating_project.clone(),
        }
    }
}

impl Contract {
    /// Creates an election and hands back its number. The caller must be
    /// privileged and attach the minimum deposit; nomination must end no later
    /// than voting starts, and voting must start before it ends. The new
    /// election is pending, is owned by the caller, and has an empty candidate
    /// directory and an empty vote ledger. A call that is turned down changes
    /// nothing.
    pub fn create_election(
        &mut self,
        ctx: &CallContext,
        title: String,
        description: String,
        start_date: u64,
        end_date: u64,
        nomination_start_date: u64,
        nomination_end_date: u64,
        votes_per_voter: u32,
        voter_eligibility: EligibilityType,
        voting_type: VotingType,
        auto_approval: bool,
        election_type: ElectionType,
    ) -> (created: Result<ElectionId, ElectionError>)
        requires
            old(self).wf(),
        ensures
            final(self).wf(),
            match created {
                Ok(id) => {
                    &&& old(self)@.create_election_error(
                        ctx.predecessor_account_id@,
                        ctx.attached_deposit,
                        start_date,
                        end_date,
                        nomination_end_date,
                    ) is None
                    &&& id == old(self)@.elections.len()
                    &&& final(self)@ == old(self)@.with_election(
                        new_election(
                            id,
                            ctx.predecessor_account_id@,
                            title@,
                            description@,
                            start_date,
                            end_date,
                            nomination_start_date,
                            nomination_end_date,
                            votes_per_voter,
                            voter_eligibility@,
                            voting_type,
                            auto_approval,
                            election_type@,
                        ),
                    )
                },
                Err(error) => {
                    &&& old(self)@.create_election_error(
                        ctx.predecessor_account_id@,
                        ctx.attached_deposit,
                        start_date,
                        end_date,
                        nomination_end_date,
                    ) == Some(error)
                    &&& final(self)@ == old(self)@
                },
            },
    {
        match self.assert_admin_or_owner(ctx) {
            Err(error) => {
                return Err(error);
            },
            Ok(_) => {},
        }
        if nomination_end_date > start_date {
            return Err(ElectionError::NominationOverlapsVoting);
        }
        if start_date >= end_date {
            return Err(ElectionError::EmptyVotingWindow);
        }
        if self.election_counter == u64::MAX {
            return Err(ElectionError::ElectionIdsExhausted);
        }
        let election_id = self.election_counter;
        self.election_counter = self.election_counter + 1;

        let creating_project = ctx.predecessor_account_id.clone();
        let election = Election {
            id: election_id,
            title,
            description,
            start_date,
            end_date,
            nomination_start_date,
            nomination_end_date,
            votes_per_voter,
            voter_eligibility,
            voting_type,
            auto_approval,
            owner: creating_project.clone(),
            status: ElectionStatus::Pending,
            challenge_period_end: None,
            winner_ids: Vec::new(),
            election_type,
            creating_project,
        };
        let ghost made = election@;
        proof {
            assert(account_names(election.winner_ids@) =~= Seq::<Seq<char>>::empty());
        }
        self.elections.push(election);

        let candidates_map: Vec<Candidate> = Vec::new();
        self.candidates.push(candidates_map);

        let election_votes: Vec<LedgerEntry> = Vec::new();
        self.votes.push(election_votes);

        proof {
            let before = old(self)@;
            let after = self@;
            let n = before.elections.len() as int;
            assert(candidate_names(self.candidates@[n]@) =~= Seq::<Seq<char>>::empty());
            assert(candidate_views(self.candidates@[n]@) =~= Seq::<CandidateView>::empty());
            assert(voter_names(self.votes@[n]@) =~= Seq::<Seq<char>>::empty());
            assert(voter_ballots(self.votes@[n]@) =~= Seq::empty());
            lemma_assoc_empty::<Seq<char>, CandidateView>();
            lemma_assoc_empty::<Seq<char>, Seq<crate::vote::VoteView>>();
            assert(after.elections =~= before.elections.push(made));
            assert(after.candidates =~= before.candidates.push(Map::empty()));
            assert(after.votes =~= before.votes.push(Map::empty()));
        }
        Ok(election_id)
    }

    /// Files the caller as a candidate of an election. The call must come in
    /// the nomination window, both ends included. The record is approved at
    /// once, with the approval dated now, where the election approves by
    /// itself, and pending otherwise. A second application of the same account
    /// takes the place of the first, tally included.
    pub fn apply(&mut self, ctx: &CallContext, election_id: ElectionId, description: String) -> (applied:
        Result<(), ElectionError>)
        requires
            old(self).wf(),
        ensures
            final(self).wf(),
            match applied {
                Ok(_) => {
                    &&& old(self)@.apply_error(election_id, ctx.block_timestamp) is None
                    &&& final(self)@ == old(self)@.with_candidate(
                        election_id,
                        application(
                            ctx.predecessor_account_id@,
                            description@,
                            old(self)@.elections[election_id as int].auto_approval,
                            ctx.block_timestamp,
                        ),
                    )
                },
                Err(error) => {
                    &&& old(self)@.apply_error(election_id, ctx.block_timestamp) == Some(error)
                    &&& final(self)@ == old(self)@
                },
            },
    {
        if election_id >= self.election_counter {
            return Err(ElectionError::ElectionNotFound);
        }
        let elections = self.elections.len();
        assert(election_id < elections);
        let idx = election_id as usize;
        let now = ctx.block_timestamp;
        let election = &self.elections[idx];
        if !(now >= election.nomination_start_date && now <= election.nomination_end_date) {
            return Err(ElectionError::NominationNotActive);
        }
        let auto_approval = election.auto_approval;
        let applicant = ctx.predecessor_account_id.clone();
        let candidate = Candidate {
            account_id: applicant,
            description,
            status: if auto_approval {
                ApplicationStatus::Approved
            } else {
                ApplicationStatus::Pending
            },
            votes_received: 0,
            application_date: now,
            approval_date: if auto_approval {
                Some(now)
            } else {
                None
            },
        };
        let ghost filed = candidate@;
        let ghost directory_before = self.candidates@[idx as int]@;
        let ghost names = candidate_names(directory_before);
        let ghost views = candidate_views(directory_before);
        assert(old(self)@.candidates[idx as int] == candidate_map(directory_before));
        match crate::vote::find_candidate(&self.candidates[idx], &candidate.account_id) {
            Some(place) => {
                self.candidates[idx][place] = candidate;
                proof {
                    let directory = self.candidates@[idx as int]@;
                    assert(candidate_names(directory) =~= names);
                    assert(candidate_views(directory) =~= views.update(place as int, filed));
                    lemma_assoc_update(names, views, place as int, filed);
                }
            },
            None => {
                self.candidates[idx].push(candidate);
                proof {
                    let directory = self.candidates@[idx as int]@;
                    assert(candidate_names(directory) =~= names.push(filed.account_id));
                    assert(candidate_views(directory) =~= views.push(filed));
                    lemma_assoc_push(names, views, filed.account_id, filed);
                }
            },
        }
        proof {
            let after = self@;
            let expected = old(self)@.with_candidate(election_id, filed);
            assert(after.elections =~= expected.elections);
            assert(after.candidates =~= expected.candidates);
            assert(after.votes =~= expected.votes);
        }
        Ok(())
    }

    /// Sets the status of a candidate's application, whatever it was before.
    /// The caller must be privileged and attach the minimum deposit. An
    /// approval is dated now; another status leaves the date of approval as it
    /// was.
    pub fn review_application(
        &mut self,
        ctx: &CallContext,
        election_id: ElectionId,
        candidate_id: AccountId,
        status: ApplicationStatus,
    ) -> (outcome: Result<(), ElectionError>)
        requires
            old(self).wf(),
        ensures
            final(self).wf(),
            match outcome {
                Ok(_) => {
                    &&& old(self)@.review_error(
                        ctx.predecessor_account_id@,
                        ctx.attached_deposit,
                        election_id,
                        candidate_id@,
                    ) is None
                    &&& final(self)@ == old(self)@.with_candidate(
                        election_id,
                        reviewed(
                            old(self)@.candidates[election_id as int][candidate_id@],
                            status,
                            ctx.block_timestamp,
                        ),
                    )
                },
                Err(error) => {
                    &&& old(self)@.review_error(
                        ctx.predecessor_account_id@,
                        ctx.attached_deposit,
                        election_id,
                        candidate_id@,
                    ) == Some(error)
                    &&& final(self)@ == old(self)@
                },
            },
    {
        match self.assert_admin_or_owner(ctx) {
            Err(error) => {
                return Err(error);
            },
            Ok(_) => {},
        }
        if election_id >= self.election_counter {
            return Err(ElectionError::CandidatesNotFound);
        }
        let elections = self.candidates.len();
        assert(election_id < elections);
        let idx = election_id as usize;
        let ghost directory_before = self.candidates@[idx as int]@;
        let ghost names = candidate_names(directory_before);
        let ghost views = candidate_views(directory_before);
        assert(old(self)@.candidates[idx as int] == candidate_map(directory_before));
        match crate::vote::find_candidate(&self.candidates[idx], &candidate_id) {
            None => {
                proof {
                    lemma_assoc_absent(names, views, candidate_id@);
                }
                Err(ElectionError::CandidateNotFound)
            },
            Some(place) => {
                proof {
                    lemma_assoc_at(names, views, place as int);
                }
                self.candidates[idx][place].status = status;
                if status == ApplicationStatus::Approved {
                    self.candidates[idx][place].approval_date = Some(ctx.block_timestamp);
                }
                proof {
                    let directory = self.candidates@[idx as int]@;
                    let record = reviewed(views[place as int], status, ctx.block_timestamp);
                    assert(directory[place as int]@ == record);
                    assert(candidate_names(directory) =~= names);
                    assert(candidate_views(directory) =~= views.update(place as int, record));
                    lemma_assoc_update(names, views, place as int, record);
                    let after = self@;
                    let expected = old(self)@.with_candidate(election_id, record);
                    assert(after.elections =~= expected.elections);
                    assert(after.candidates =~= expected.candidates);
                    assert(after.votes =~= expected.votes);
                }
                Ok(())
            },
        }
    }
}

} // verus!
