//! The registry as a mathematical value, and what each operation makes of it.

use vstd::prelude::*;
use crate::elections::{
    ApplicationStatus, CandidateView, ElectionStatus, ElectionTypeView, ElectionView,
    EligibilityView,
};
use crate::error::ElectionError;
use crate::ext::yocto_per_near;
use crate::vote::VoteView;
use crate::{ElectionId, StorageKey, VotingType};

verus! {

/// A batch of votes: the candidates' names, each with the weight given to it.
pub type Batch = Seq<(Seq<char>, u32)>;

/// The sum of the weights of a batch.
pub open spec fn batch_weight(batch: Batch) -> nat
    decreases batch.len(),
{
    if batch.len() == 0 {
        0
    } else {
        batch_weight(batch.drop_last()) + batch.last().1 as nat
    }
}

/// The sum of the weights that a batch gives to one candidate.
pub open spec fn weight_for(batch: Batch, candidate: Seq<char>) -> nat
    decreases batch.len(),
{
    if batch.len() == 0 {
        0
    } else if batch.last().0 == candidate {
        weight_for(batch.drop_last(), candidate) + batch.last().1 as nat
    } else {
        weight_for(batch.drop_last(), candidate)
    }
}

/// The sum of the weights that recorded votes give to one candidate.
pub open spec fn votes_weight_for(votes: Seq<VoteView>, candidate: Seq<char>) -> nat
    decreases votes.len(),
{
    if votes.len() == 0 {
        0
    } else if votes.last().candidate_id == candidate {
        votes_weight_for(votes.drop_last(), candidate) + votes.last().weight as nat
    } else {
        votes_weight_for(votes.drop_last(), candidate)
    }
}

/// The weight that counts for a vote under a voting model: one under
/// `Simple`, whatever the voter wrote, and the written weight under the other
/// two.
pub open spec fn counted_weight(voting_type: VotingType, weight: u32) -> u32 {
    match voting_type {
        VotingType::Simple => 1,
        VotingType::Weighted(_) => weight,
        VotingType::PointBased(_) => weight,
    }
}

/// The batch with the weights that count under a voting model.
pub open spec fn counted_batch(voting_type: VotingType, batch: Batch) -> Batch {
    Seq::new(batch.len(), |i: int| (batch[i].0, counted_weight(voting_type, batch[i].1)))
}

/// The votes that a voter casts at `now` with a batch whose weights count.
pub open spec fn cast_votes(voter: Seq<char>, counted: Batch, now: u64) -> Seq<VoteView> {
    Seq::new(
        counted.len(),
        |i: int| VoteView { voter, candidate_id: counted[i].0, weight: counted[i].1, timestamp: now },
    )
}

/// The election that `creator` makes with number `id`.
pub open spec fn new_election(
    id: ElectionId,
    creator: Seq<char>,
    title: Seq<char>,
    description: Seq<char>,
    start_date: u64,
    end_date: u64,
    nomination_start_date: u64,
    nomination_end_date: u64,
    votes_per_voter: u32,
    voter_eligibility: EligibilityView,
    voting_type: VotingType,
    auto_approval: bool,
    election_type: ElectionTypeView,
) -> ElectionView {
    ElectionView {
        id,
        title,
        description,
        start_date,
        end_date,
        nomination_start_date,
        nomination_end_date,
        votes_per_voter,
        voting_type,
        voter_eligibility,
        auto_approval,
        owner: creator,
        status: ElectionStatus::Pending,
        challenge_period_end: None,
        winner_ids: Seq::empty(),
        election_type,
        creating_project: creator,
    }
}

/// The record of an application made at `now`: approved at once where the
/// election approves by itself, pending otherwise, and without votes.
pub open spec fn application(
    applicant: Seq<char>,
    description: Seq<char>,
    auto_approval: bool,
    now: u64,
) -> CandidateView {
    CandidateView {
        account_id: applicant,
        description,
        status: if auto_approval {
            ApplicationStatus::Approved
        } else {
            ApplicationStatus::Pending
        },
        votes_received: 0,
        application_date: now,
        approval_date: if auto_approval {
            Some(now)
        } else {
            None
        },
    }
}

/// A candidate's record after a review at `now`: the status is set whatever
/// it was, and an approval is dated `now`.
pub open spec fn reviewed(candidate: CandidateView, status: ApplicationStatus, now: u64) -> CandidateView {
    CandidateView {
        status,
        approval_date: if status == ApplicationStatus::Approved {
            Some(now)
        } else {
            candidate.approval_date
        },
        ..candidate
    }
}

/// Pair `i` of a batch can be recorded after the pairs before it: its
/// candidate has applied, and the candidate's tally stays in range.
pub open spec fn recordable(candidates: Map<Seq<char>, CandidateView>, counted: Batch, i: int) -> bool {
    &&& candidates.contains_key(counted[i].0)
    &&& candidates[counted[i].0].votes_received + weight_for(counted.take(i + 1), counted[i].0)
        <= u64::MAX
}

/// Every pair of the batch can be recorded.
pub open spec fn all_recordable(candidates: Map<Seq<char>, CandidateView>, counted: Batch) -> bool {
    forall|i: int| 0 <= i < counted.len() ==> recordable(candidates, counted, i)
}

/// `i` is the first pair of the batch that cannot be recorded.
pub open spec fn first_unrecordable(candidates: Map<Seq<char>, CandidateView>, counted: Batch, i: int) -> bool {
    &&& 0 <= i < counted.len()
    &&& !recordable(candidates, counted, i)
    &&& forall|j: int| 0 <= j < i ==> recordable(candidates, counted, j)
}

/// Why a batch cannot be recorded, if it cannot: the reason lies with its
/// first pair that fails.
pub open spec fn record_error(candidates: Map<Seq<char>, CandidateView>, counted: Batch) -> Option<ElectionError> {
    if all_recordable(candidates, counted) {
        None
    } else {
        let i = choose|i: int| first_unrecordable(candidates, counted, i);
        if candidates.contains_key(counted[i].0) {
            Some(ElectionError::TallyOverflow)
        } else {
            Some(ElectionError::CandidateNotFound)
        }
    }
}

/// The candidates after a batch: each tally grown by the weights that the
/// batch gives to the candidate.
pub open spec fn tallied(candidates: Map<Seq<char>, CandidateView>, counted: Batch) -> Map<Seq<char>, CandidateView> {
    Map::new(
        |name: Seq<char>| candidates.contains_key(name),
        |name: Seq<char>| CandidateView {
            votes_received: (candidates[name].votes_received + weight_for(counted, name)) as u64,
            ..candidates[name]
        },
    )
}

/// The next pair of a batch adds its weight to the sum of those before it.
pub proof fn lemma_batch_weight_step(batch: Batch, i: int)
    requires
        0 <= i < batch.len(),
    ensures
        batch_weight(batch.take(i + 1)) == batch_weight(batch.take(i)) + batch[i].1,
{
    assert(batch.take(i + 1).drop_last() =~= batch.take(i));
}

/// The weights of the first pairs of a batch add up to no more than those of
/// the whole batch.
pub proof fn lemma_batch_weight_prefix(batch: Batch, i: int)
    requires
        0 <= i <= batch.len(),
    ensures
        batch_weight(batch.take(i)) <= batch_weight(batch),
    decreases batch.len() - i,
{
    if i == batch.len() {
        assert(batch.take(i) =~= batch);
    } else {
        lemma_batch_weight_step(batch, i);
        lemma_batch_weight_prefix(batch, i + 1);
    }
}

/// The next pair of a batch adds its weight to what its candidate had from
/// the pairs before it, and nothing to the other candidates.
pub proof fn lemma_weight_for_step(batch: Batch, i: int, candidate: Seq<char>)
    requires
        0 <= i < batch.len(),
    ensures
        weight_for(batch.take(i + 1), candidate) == weight_for(batch.take(i), candidate) + (if batch[i].0
            == candidate {
            batch[i].1 as nat
        } else {
            0
        }),
{
    assert(batch.take(i + 1).drop_last() =~= batch.take(i));
}

/// Under `Simple` a batch weighs as much as it has pairs.
pub proof fn lemma_simple_batch_weight(batch: Batch)
    ensures
        batch_weight(counted_batch(VotingType::Simple, batch)) == batch.len(),
    decreases batch.len(),
{
    let counted = counted_batch(VotingType::Simple, batch);
    if batch.len() > 0 {
        lemma_simple_batch_weight(batch.drop_last());
        assert(counted.drop_last() =~= counted_batch(VotingType::Simple, batch.drop_last()));
    }
}

/// Under `Weighted` and `PointBased` the batch counts as it was written.
pub proof fn lemma_counted_as_written(voting_type: VotingType, batch: Batch)
    requires
        voting_type != VotingType::Simple,
    ensures
        counted_batch(voting_type, batch) == batch,
{
    assert(counted_batch(voting_type, batch) =~= batch);
}

/// A batch of no votes leaves every tally as it was.
pub proof fn lemma_tallied_empty(candidates: Map<Seq<char>, CandidateView>)
    ensures
        tallied(candidates, Seq::empty()) == candidates,
{
    assert(tallied(candidates, Seq::empty()) =~= candidates);
}

/// The reason for which a batch cannot be recorded is that of its first pair
/// that fails, wherever that pair was found.
pub proof fn lemma_record_error_at(candidates: Map<Seq<char>, CandidateView>, counted: Batch, i: int)
    requires
        first_unrecordable(candidates, counted, i),
    ensures
        record_error(candidates, counted) == Some(
            if candidates.contains_key(counted[i].0) {
                ElectionError::TallyOverflow
            } else {
                ElectionError::CandidateNotFound
            },
        ),
{
    let chosen = choose|j: int| first_unrecordable(candidates, counted, j);
    assert(first_unrecordable(candidates, counted, chosen));
    assert(chosen == i) by {
        if chosen < i {
            assert(recordable(candidates, counted, chosen));
        } else if i < chosen {
            assert(recordable(candidates, counted, i));
        }
    }
}

/// The registry as a mathematical value. An election's number is its place in
/// `elections`; its candidates and its votes stand at the same place.
pub struct ContractView {
    pub owner: Seq<char>,
    pub admins: Set<Seq<char>>,
    pub elections: Seq<ElectionView>,
    /// For each election, the candidates by name.
    pub candidates: Seq<Map<Seq<char>, CandidateView>>,
    /// For each election, the votes of each voter in the order they were cast.
    pub votes: Seq<Map<Seq<char>, Seq<VoteView>>>,
}

impl ContractView {
    /// What holds of every registry: each election has its number, ordered
    /// windows, a candidate directory and a vote ledger, and each candidate is
    /// filed under its own name.
    pub open spec fn wf(self) -> bool {
        &&& self.elections.len() <= u64::MAX
        &&& self.candidates.len() == self.elections.len()
        &&& self.votes.len() == self.elections.len()
        &&& forall|i: int|
            0 <= i < self.elections.len() ==> (#[trigger] self.elections[i]).id == i
                && self.elections[i].windows_ordered()
        &&& forall|i: int, name: Seq<char>|
            0 <= i < self.candidates.len() && self.candidates[i].contains_key(name)
                ==> (#[trigger] self.candidates[i][name]).account_id == name
    }

    /// Whether an election has the number `id`.
    pub open spec fn has_election(self, id: ElectionId) -> bool {
        id < self.elections.len()
    }

    /// Whether the registry keeps the named store: those of the registry as a
    /// whole always, the directory and the ledger of an election once the
    /// election is created, and no store of eligible voters or candidates.
    pub open spec fn provisioned(self, key: StorageKey) -> bool {
        match key {
            StorageKey::Elections => true,
            StorageKey::Admins => true,
            StorageKey::Votes => true,
            StorageKey::Candidates { election_id } => self.has_election(election_id),
            StorageKey::ElectionVotes { election_id } => self.has_election(election_id),
            StorageKey::VoterEligibility { election_id } => false,
            StorageKey::CandidateEligibility { election_id } => false,
        }
    }

    pub open spec fn is_owner(self, account: Seq<char>) -> bool {
        account == self.owner
    }

    pub open spec fn is_admin(self, account: Seq<char>) -> bool {
        self.admins.contains(account)
    }

    pub open spec fn is_owner_or_admin(self, account: Seq<char>) -> bool {
        self.is_owner(account) || self.is_admin(account)
    }

    /// Why `caller` may not make a privileged call with `deposit` attached,
    /// if it may not.
    pub open spec fn authorization_error(self, caller: Seq<char>, deposit: u128) -> Option<ElectionError> {
        if !self.is_owner_or_admin(caller) {
            Some(ElectionError::NotAdminOrOwner)
        } else if deposit < yocto_per_near() {
            Some(ElectionError::InsufficientDeposit)
        } else {
            None
        }
    }

    /// Why an election with the given windows cannot be created, if it cannot.
    pub open spec fn create_election_error(
        self,
        caller: Seq<char>,
        deposit: u128,
        start_date: u64,
        end_date: u64,
        nomination_end_date: u64,
    ) -> Option<ElectionError> {
        if self.authorization_error(caller, deposit) is Some {
            self.authorization_error(caller, deposit)
        } else if nomination_end_date > start_date {
            Some(ElectionError::NominationOverlapsVoting)
        } else if start_date >= end_date {
            Some(ElectionError::EmptyVotingWindow)
        } else if self.elections.len() >= u64::MAX {
            Some(ElectionError::ElectionIdsExhausted)
        } else {
            None
        }
    }

    /// The registry with one more election, which has no candidates and no
    /// votes yet.
    pub open spec fn with_election(self, election: ElectionView) -> ContractView {
        ContractView {
            elections: self.elections.push(election),
            candidates: self.candidates.push(Map::empty()),
            votes: self.votes.push(Map::empty()),
            ..self
        }
    }

    /// Why nobody can apply to election `id` at `now`, if nobody can.
    pub open spec fn apply_error(self, id: ElectionId, now: u64) -> Option<ElectionError> {
        if !self.has_election(id) {
            Some(ElectionError::ElectionNotFound)
        } else if !self.elections[id as int].nomination_active(now) {
            Some(ElectionError::NominationNotActive)
        } else {
            None
        }
    }

    /// The registry with `candidate` filed in election `id` under its name,
    /// in place of what was filed there.
    pub open spec fn with_candidate(self, id: ElectionId, candidate: CandidateView) -> ContractView {
        ContractView {
            candidates: self.candidates.update(
                id as int,
                self.candidates[id as int].insert(candidate.account_id, candidate),
            ),
            ..self
        }
    }

    /// Why `caller` cannot review `candidate` in election `id`, if it cannot.
    pub open spec fn review_error(
        self,
        caller: Seq<char>,
        deposit: u128,
        id: ElectionId,
        candidate: Seq<char>,
    ) -> Option<ElectionError> {
        if self.authorization_error(caller, deposit) is Some {
            self.authorization_error(caller, deposit)
        } else if id >= self.candidates.len() {
            Some(ElectionError::CandidatesNotFound)
        } else if !self.candidates[id as int].contains_key(candidate) {
            Some(ElectionError::CandidateNotFound)
        } else {
            None
        }
    }

    /// Why nobody can vote in election `id` at `now`, if nobody can.
    pub open spec fn voting_error(self, id: ElectionId, now: u64) -> Option<ElectionError> {
        if !self.has_election(id) {
            Some(ElectionError::ElectionNotFound)
        } else if !self.elections[id as int].voting_active(now) {
            Some(ElectionError::VotingNotActive)
        } else {
            None
        }
    }

    /// The votes that `voter` has cast in election `id`, oldest first.
    pub open spec fn ballots(self, id: ElectionId, voter: Seq<char>) -> Seq<VoteView> {
        if id < self.votes.len() && self.votes[id as int].contains_key(voter) {
            self.votes[id as int][voter]
        } else {
            Seq::empty()
        }
    }

    /// The tally of `candidate` in election `id`; zero where there is none.
    pub open spec fn tally(self, id: ElectionId, candidate: Seq<char>) -> nat {
        if id < self.candidates.len() && self.candidates[id as int].contains_key(candidate) {
            self.candidates[id as int][candidate].votes_received as nat
        } else {
            0
        }
    }

    /// The registry after one vote of `weight` for `candidate` was recorded at
    /// `now`: the vote is appended to the voter's entry in the ledger of
    /// election `id`, and the candidate's tally has grown by the weight.
    pub open spec fn recorded(
        self,
        id: ElectionId,
        voter: Seq<char>,
        candidate: Seq<char>,
        weight: u32,
        now: u64,
    ) -> ContractView {
        let record = self.candidates[id as int][candidate];
        ContractView {
            candidates: self.candidates.update(
                id as int,
                self.candidates[id as int].insert(
                    candidate,
                    CandidateView { votes_received: (record.votes_received + weight) as u64, ..record },
                ),
            ),
            votes: self.votes.update(
                id as int,
                self.votes[id as int].insert(
                    voter,
                    self.ballots(id, voter).push(
                        VoteView { voter, candidate_id: candidate, weight, timestamp: now },
                    ),
                ),
            ),
            ..self
        }
    }

    /// Why a batch is over the budget of the election's voting model, if it
    /// is. The budget is the election's as handed in; what the voter has cast
    /// before is read from the ledger as it is now.
    pub open spec fn budget_error(self, election: ElectionView, voter: Seq<char>, batch: Batch) -> Option<ElectionError> {
        match election.voting_type {
            VotingType::Simple => {
                if election.id >= self.votes.len() {
                    Some(ElectionError::VotesNotFound)
                } else if self.ballots(election.id, voter).len() + batch.len() > election.votes_per_voter {
                    Some(ElectionError::TooManyVotes)
                } else {
                    None
                }
            },
            VotingType::Weighted(max_weight) => {
                if batch_weight(batch) > max_weight {
                    Some(ElectionError::WeightExceeded)
                } else {
                    None
                }
            },
            VotingType::PointBased(total_points) => {
                if batch_weight(batch) > total_points {
                    Some(ElectionError::PointsExceeded)
                } else {
                    None
                }
            },
        }
    }

    /// Why a batch cannot be settled, if it cannot: it is over budget, or the
    /// election has no ledger here, or one of its pairs cannot be recorded.
    /// An empty batch within budget is settled by doing nothing.
    pub open spec fn settlement_error(self, election: ElectionView, voter: Seq<char>, batch: Batch) -> Option<ElectionError> {
        if self.budget_error(election, voter, batch) is Some {
            self.budget_error(election, voter, batch)
        } else if batch.len() == 0 {
            None
        } else if election.id >= self.votes.len() {
            Some(ElectionError::VotesNotFound)
        } else {
            record_error(
                self.candidates[election.id as int],
                counted_batch(election.voting_type, batch),
            )
        }
    }

    /// The registry after a batch was settled at `now`: the votes are appended
    /// to the voter's entry in the ledger, and the tallies have grown.
    pub open spec fn settled(self, election: ElectionView, voter: Seq<char>, batch: Batch, now: u64) -> ContractView {
        if batch.len() == 0 {
            self
        } else {
            let id = election.id;
            let counted = counted_batch(election.voting_type, batch);
            ContractView {
                candidates: self.candidates.update(
                    id as int,
                    tallied(self.candidates[id as int], counted),
                ),
                votes: self.votes.update(
                    id as int,
                    self.votes[id as int].insert(
                        voter,
                        self.ballots(id, voter) + cast_votes(voter, counted, now),
                    ),
                ),
                ..self
            }
        }
    }
}

/// What the settlement of a batch comes to, as a relation between the
/// registry before and after and the result: the batch is settled whole and
/// the result is `false`, or the call fails for the reason that
/// `settlement_error` gives and the registry stays as it was.
pub open spec fn settles(
    before: ContractView,
    after: ContractView,
    election: ElectionView,
    voter: Seq<char>,
    batch: Batch,
    now: u64,
    settled: Result<bool, ElectionError>,
) -> bool {
    match settled {
        Ok(accepted) => {
            &&& !accepted
            &&& before.settlement_error(election, voter, batch) is None
            &&& after == before.settled(election, voter, batch, now)
        },
        Err(error) => {
            &&& before.settlement_error(election, voter, batch) == Some(error)
            &&& after == before
        },
    }
}

/// What a vote that waited comes to once the authority's answer is known:
/// where the voter was confirmed the batch is settled; where not, it is
/// dropped, the result is `false` and the registry stays as it was.
pub open spec fn resumes(
    before: ContractView,
    after: ContractView,
    election: ElectionView,
    voter: Seq<char>,
    batch: Batch,
    now: u64,
    confirmed: bool,
    settled: Result<bool, ElectionError>,
) -> bool {
    if confirmed {
        settles(before, after, election, voter, batch, now, settled)
    } else {
        settled == Ok::<bool, ElectionError>(false) && after == before
    }
}

} // verus!
