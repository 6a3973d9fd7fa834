//! Votes, vote batches and their settlement.

use vstd::prelude::*;
use crate::account::AccountId;
use crate::assoc::{lemma_assoc_absent, lemma_assoc_at, lemma_assoc_push, lemma_assoc_update};
use crate::elections::{Candidate, CandidateView, Election, ElectionView, EligibilityType, EligibilityView};
use crate::error::ElectionError;
use crate::ext::{callback_gas, gas_per_tgas, list_query_gas, ListId, RegistrantId};
use crate::model::ContractView;
use crate::CallContext;
use near_sdk::PromiseError;
use crate::model::{
    all_recordable, batch_weight, cast_votes, counted_batch, counted_weight, first_unrecordable,
    lemma_batch_weight_prefix, lemma_batch_weight_step, lemma_record_error_at,
    lemma_tallied_empty, lemma_weight_for_step, record_error, recordable, resumes, settles,
    tallied, weight_for,
};
use crate::{
    candidate_map, candidate_names, candidate_views, ledger_map, voter_ballots, voter_names,
    Contract, ElectionId, VotingType,
};

verus! {

/// One vote as it was cast. Votes are appended and never changed afterwards.
#[derive(Debug)]
pub struct Vote {
    pub voter: AccountId,
    pub candidate_id: AccountId,
    /// The weight, or the points, given to the candidate.
    pub weight: u32,
    pub timestamp: u64,
}

/// A [`Vote`] as a mathematical value.
pub struct VoteView {
    pub voter: Seq<char>,
    pub candidate_id: Seq<char>,
    pub weight: u32,
    pub timestamp: u64,
}

impl View for Vote {
    type V = VoteView;

    open spec fn view(&self) -> VoteView {
        VoteView {
            voter: self.voter@,
            candidate_id: self.candidate_id@,
            weight: self.weight,
            timestamp: self.timestamp,
        }
    }
}

impl Clone for Vote {
    fn clone(&self) -> (copy: Vote)
        ensures
            copy@ == self@,
    {
        Vote {
            voter: self.voter.clone(),
            candidate_id: self.candidate_id.clone(),
            weight: self.weight,
            timestamp: self.timestamp,
        }
    }
}

/// A batch of votes as a mathematical value: the candidates' names, each with
/// the weight given to it.
pub open spec fn batch_view(votes: Seq<(AccountId, u32)>) -> Seq<(Seq<char>, u32)> {
    Seq::new(votes.len(), |i: int| (votes[i].0@, votes[i].1))
}

/// The votes of a ledger entry as mathematical values.
pub open spec fn vote_views(votes: Seq<Vote>) -> Seq<VoteView> {
    Seq::new(votes.len(), |i: int| votes[i]@)
}

/// The votes of one voter in one election, oldest first.
#[derive(Debug)]
pub struct LedgerEntry {
    pub voter: AccountId,
    pub votes: Vec<Vote>,
}

/// A copy of a batch of votes.
pub fn clone_batch(votes: &Vec<(AccountId, u32)>) -> (copy: Vec<(AccountId, u32)>)
    ensures
        batch_view(copy@) == batch_view(votes@),
{
    let mut copy: Vec<(AccountId, u32)> = Vec::new();
    let mut i: usize = 0;
    while i < votes.len()
        invariant
            i <= votes.len(),
            copy.len() == i,
            forall|j: int| 0 <= j < i ==> copy[j].0@ == votes[j].0@ && copy[j].1 == votes[j].1,
        decreases votes.len() - i,
    {
        copy.push((votes[i].0.clone(), votes[i].1));
        i += 1;
    }
    assert(batch_view(copy@) =~= batch_view(votes@));
    copy
}

/// The question put to the authority that keeps a list of voters: is
/// `account_id` registered on list `list_id`?
#[derive(Debug)]
pub struct RegistrationQuery {
    /// The authority that is asked.
    pub contract_id: AccountId,
    pub list_id: Option<ListId>,
    pub account_id: RegistrantId,
    /// Gas units granted to the query.
    pub gas: u64,
}

/// A [`RegistrationQuery`] as a mathematical value.
pub struct RegistrationQueryView {
    pub contract_id: Seq<char>,
    pub list_id: Option<ListId>,
    pub account_id: Seq<char>,
    pub gas: u64,
}

impl View for RegistrationQuery {
    type V = RegistrationQueryView;

    open spec fn view(&self) -> RegistrationQueryView {
        RegistrationQueryView {
            contract_id: self.contract_id@,
            list_id: self.list_id,
            account_id: self.account_id@,
            gas: self.gas,
        }
    }
}

/// A vote that waits for the authority's answer: the question to ask, and
/// what to hand to `Contract::eligible_voting_callback` with the answer.
#[derive(Debug)]
pub struct PendingVote {
    pub query: RegistrationQuery,
    /// Gas units granted to the callback.
    pub callback_gas: u64,
    pub voter: AccountId,
    /// The election as it was when the vote came in.
    pub election: Election,
    pub votes: Vec<(AccountId, u32)>,
}

/// A [`PendingVote`] as a mathematical value.
pub struct PendingVoteView {
    pub query: RegistrationQueryView,
    pub callback_gas: u64,
    pub voter: Seq<char>,
    pub election: ElectionView,
    pub votes: Seq<(Seq<char>, u32)>,
}

impl View for PendingVote {
    type V = PendingVoteView;

    open spec fn view(&self) -> PendingVoteView {
        PendingVoteView {
            query: self.query@,
            callback_gas: self.callback_gas,
            voter: self.voter@,
            election: self.election@,
            votes: batch_view(self.votes@),
        }
    }
}

/// What a call of `Contract::vote` comes to.
#[derive(Debug)]
pub enum VoteOutcome {
    /// The batch was settled in this call; the value is the call's result.
    Value(bool),
    /// The batch waits for the authority's answer.
    Promise(PendingVote),
}

/// `near_sdk::PromiseError`: why a call to another contract brought no
/// result. The library hands such a value on and never looks inside.
#[verifier::external_type_specification]
#[verifier::external_body]
pub struct ExPromiseError(near_sdk::PromiseError);

/// The number of a list as it is sent to the authority: the low 64 bits of
/// the number that the election holds.
pub open spec fn low_64_bits(list: u128) -> ListId {
    (list % 0x1_0000_0000_0000_0000) as u64
}

/// The number of a list as it is sent to the authority.
pub fn list_number(list: u128) -> (number: ListId)
    ensures
        number == low_64_bits(list),
{
    (list % 0x1_0000_0000_0000_0000) as u64
}

/// The question that decides whether `voter` may vote under a rule of lists,
/// with what the answer is to be handed on with.
pub open spec fn pending_vote(
    authority: Seq<char>,
    list: u128,
    voter: Seq<char>,
    election: ElectionView,
    batch: Seq<(Seq<char>, u32)>,
) -> PendingVoteView {
    PendingVoteView {
        query: RegistrationQueryView {
            contract_id: authority,
            list_id: Some(low_64_bits(list)),
            account_id: voter,
            gas: (5 * gas_per_tgas()) as u64,
        },
        callback_gas: gas_per_tgas() as u64,
        voter,
        election,
        votes: batch,
    }
}

/// Whether the authority has answered, and has answered yes.
pub open spec fn confirmed(call_result: Result<bool, PromiseError>) -> bool {
    call_result == Ok::<bool, PromiseError>(true)
}

/// Whether the authority has answered, and has answered yes. A call that
/// failed, ran out of its budget or was answered no is not confirmed.
pub fn eligibility_confirmed(call_result: &Result<bool, PromiseError>) -> (yes: bool)
    ensures
        yes == confirmed(*call_result),
{
    match call_result {
        Ok(registered) => *registered,
        Err(_) => false,
    }
}

/// What a vote under the election's rule of eligibility comes to, as a
/// relation between the registry before and after and the outcome.
///
/// An open election settles the batch in the same call. A rule of lists
/// leaves the registry as it is and hands back the question to ask. The other
/// rules are refused.
pub open spec fn resolves(
    before: ContractView,
    after: ContractView,
    election: ElectionView,
    voter: Seq<char>,
    batch: Seq<(Seq<char>, u32)>,
    now: u64,
    outcome: Result<VoteOutcome, ElectionError>,
) -> bool {
    match election.voter_eligibility {
        EligibilityView::Open => match outcome {
            Ok(VoteOutcome::Value(accepted)) => settles(
                before,
                after,
                election,
                voter,
                batch,
                now,
                Ok(accepted),
            ),
            Ok(VoteOutcome::Promise(_)) => false,
            Err(error) => settles(before, after, election, voter, batch, now, Err(error)),
        },
        EligibilityView::ListBased(authority, list) => {
            &&& after == before
            &&& outcome matches Ok(VoteOutcome::Promise(pending))
            &&& pending@ == pending_vote(authority, list, voter, election, batch)
        },
        EligibilityView::TokenBased(_, _) => {
            &&& after == before
            &&& outcome matches Err(error)
            &&& error == ElectionError::UnsupportedEligibility
        },
        EligibilityView::Custom(_) => {
            &&& after == before
            &&& outcome matches Err(error)
            &&& error == ElectionError::UnsupportedEligibility
        },
    }
}

/// The place of an account in a candidate directory, if it is filed there.
pub(crate) fn find_candidate(candidates: &Vec<Candidate>, account: &AccountId) -> (place: Option<usize>)
    ensures
        match place {
            Some(p) => p < candidates.len() && candidate_names(candidates@)[p as int] == account@,
            None => !candidate_names(candidates@).contains(account@),
        },
{
    let ghost names = candidate_names(candidates@);
    let mut i: usize = 0;
    while i < candidates.len()
        invariant
            i <= candidates.len(),
            names == candidate_names(candidates@),
            forall|j: int| 0 <= j < i ==> names[j] != account@,
        decreases candidates.len() - i,
    {
        if candidates[i].account_id.same(account) {
            return Some(i);
        }
        i += 1;
    }
    None
}

/// The place of a voter in a vote ledger, if the voter has an entry there.
pub(crate) fn find_voter(ledger: &Vec<LedgerEntry>, voter: &AccountId) -> (place: Option<usize>)
    ensures
        match place {
            Some(p) => p < ledger.len() && voter_names(ledger@)[p as int] == voter@,
            None => !voter_names(ledger@).contains(voter@),
        },
{
    let ghost names = voter_names(ledger@);
    let mut i: usize = 0;
    while i < ledger.len()
        invariant
            i <= ledger.len(),
            names == voter_names(ledger@),
            forall|j: int| 0 <= j < i ==> names[j] != voter@,
        decreases ledger.len() - i,
    {
        if ledger[i].voter.same(voter) {
            return Some(i);
        }
        i += 1;
    }
    None
}

/// Whether the weights of a batch add up to no more than `limit`.
pub fn within_weight(votes: &Vec<(AccountId, u32)>, limit: u32) -> (within: bool)
    ensures
        within == (batch_weight(batch_view(votes@)) <= limit),
{
    let ghost batch = batch_view(votes@);
    let mut total: u32 = 0;
    let mut i: usize = 0;
    while i < votes.len()
        invariant
            i <= votes.len(),
            batch == batch_view(votes@),
            total == batch_weight(batch.take(i as int)),
            total <= limit,
        decreases votes.len() - i,
    {
        let weight = votes[i].1;
        proof {
            lemma_batch_weight_step(batch, i as int);
            lemma_batch_weight_prefix(batch, i + 1);
        }
        if weight > limit - total {
            return false;
        }
        total = total + weight;
        i += 1;
    }
    assert(batch.take(i as int) =~= batch);
    true
}

/// The weight that counts for a vote under a voting model.
pub fn weight_counted(voting_type: &VotingType, weight: u32) -> (counted: u32)
    ensures
        counted == counted_weight(*voting_type, weight),
{
    match voting_type {
        VotingType::Simple => 1,
        VotingType::Weighted(_) => weight,
        VotingType::PointBased(_) => weight,
    }
}

impl Contract {
    /// The number of votes that `voter` has cast in an election.
    pub fn votes_cast(&self, election_id: ElectionId, voter: &AccountId) -> (cast: usize)
        requires
            self.wf(),
        ensures
            cast == self@.ballots(election_id, voter@).len(),
    {
        if election_id >= self.election_counter {
            return 0;
        }
        let elections = self.votes.len();
        assert(election_id < elections);
        let idx = election_id as usize;
        let ghost ledger = self.votes@[idx as int]@;
        assert(self@.votes[idx as int] == ledger_map(ledger));
        match find_voter(&self.votes[idx], voter) {
            Some(place) => {
                proof {
                    lemma_assoc_at(voter_names(ledger), voter_ballots(ledger), place as int);
                }
                self.votes[idx][place].votes.len()
            },
            None => {
                proof {
                    lemma_assoc_absent(voter_names(ledger), voter_ballots(ledger), voter@);
                }
                0
            },
        }
    }

    /// Holds a batch against the budget of the election's voting model. The
    /// budget is that of the election handed in; what the voter has cast
    /// before is read from the ledger as it is now.
    pub fn check_budget(
        &self,
        voter: &AccountId,
        election: &Election,
        votes: &Vec<(AccountId, u32)>,
    ) -> (checked: Result<(), ElectionError>)
        requires
            self.wf(),
        ensures
            checked == match self@.budget_error(election@, voter@, batch_view(votes@)) {
                Some(error) => Err::<(), ElectionError>(error),
                None => Ok(()),
            },
    {
        match election.voting_type {
            VotingType::Simple => {
                if election.id >= self.election_counter {
                    return Err(ElectionError::VotesNotFound);
                }
                let cast = self.votes_cast(election.id, voter);
                if cast as u128 + votes.len() as u128 > election.votes_per_voter as u128 {
                    Err(ElectionError::TooManyVotes)
                } else {
                    Ok(())
                }
            },
            VotingType::Weighted(max_weight) => {
                if within_weight(votes, max_weight) {
                    Ok(())
                } else {
                    Err(ElectionError::WeightExceeded)
                }
            },
            VotingType::PointBased(total_points) => {
                if within_weight(votes, total_points) {
                    Ok(())
                } else {
                    Err(ElectionError::PointsExceeded)
                }
            },
        }
    }

    /// Finds out, without writing anything, whether every pair of a batch can
    /// be recorded one after the other: whether each candidate has applied to
    /// the election and each tally stays in range.
    pub fn check_recordable(&self, election: &Election, votes: &Vec<(AccountId, u32)>) -> (checked:
        Result<(), ElectionError>)
        requires
            self.wf(),
            self@.has_election(election.id),
        ensures
            checked == match record_error(
                self@.candidates[election.id as int],
                counted_batch(election.voting_type, batch_view(votes@)),
            ) {
                Some(error) => Err::<(), ElectionError>(error),
                None => Ok(()),
            },
    {
        let elections = self.candidates.len();
        assert(election.id < elections);
        let idx = election.id as usize;
        let directory = &self.candidates[idx];
        let ghost names = candidate_names(directory@);
        let ghost views = candidate_views(directory@);
        let ghost filed = candidate_map(directory@);
        let ghost counted = counted_batch(election.voting_type, batch_view(votes@));
        assert(self@.candidates[idx as int] == filed);
        assert(names.no_duplicates());

        let mut tallies: Vec<u64> = Vec::new();
        let mut p: usize = 0;
        while p < directory.len()
            invariant
                p <= directory.len(),
                tallies.len() == p,
                forall|q: int| 0 <= q < p ==> tallies[q] == directory[q].votes_received,
            decreases directory.len() - p,
        {
            tallies.push(directory[p].votes_received);
            p += 1;
        }

        let mut i: usize = 0;
        while i < votes.len()
            invariant
                i <= votes.len(),
                names == candidate_names(directory@),
                views == candidate_views(directory@),
                filed == crate::assoc::assoc_map(names, views),
                self@.has_election(election.id),
                self@.candidates[election.id as int] == filed,
                names.no_duplicates(),
                counted == counted_batch(election.voting_type, batch_view(votes@)),
                tallies.len() == directory.len(),
                forall|q: int|
                    0 <= q < directory.len() ==> tallies[q] == directory[q].votes_received
                        + weight_for(counted.take(i as int), #[trigger] names[q]),
                forall|j: int| 0 <= j < i ==> recordable(filed, counted, j),
            decreases votes.len() - i,
        {
            let weight = weight_counted(&election.voting_type, votes[i].1);
            match find_candidate(directory, &votes[i].0) {
                None => {
                    proof {
                        lemma_assoc_absent(names, views, votes[i as int].0@);
                        assert(first_unrecordable(filed, counted, i as int));
                        lemma_record_error_at(filed, counted, i as int);
                    }
                    return Err(ElectionError::CandidateNotFound);
                },
                Some(place) => {
                    proof {
                        lemma_assoc_at(names, views, place as int);
                        lemma_weight_for_step(counted, i as int, names[place as int]);
                    }
                    if tallies[place] > u64::MAX - weight as u64 {
                        proof {
                            assert(first_unrecordable(filed, counted, i as int));
                            lemma_record_error_at(filed, counted, i as int);
                        }
                        return Err(ElectionError::TallyOverflow);
                    }
                    let grown = tallies[place] + weight as u64;
                    tallies.set(place, grown);
                    proof {
                        assert(recordable(filed, counted, i as int));
                        assert forall|q: int| 0 <= q < directory.len() implies tallies[q]
                            == directory[q].votes_received + weight_for(
                            counted.take(i + 1),
                            #[trigger] names[q],
                        ) by {
                            lemma_weight_for_step(counted, i as int, names[q]);
                        }
                    }
                },
            }
            i += 1;
        }
        assert(all_recordable(filed, counted));
        Ok(())
    }

    /// Records one vote: appends it to the voter's entry in the election's
    /// ledger, which is made where the voter has none, and adds the weight to
    /// the candidate's tally.
    pub(crate) fn record_vote(
        &mut self,
        voter: &AccountId,
        candidate_id: &AccountId,
        weight: u32,
        election_id: &ElectionId,
        now: u64,
    )
        requires
            old(self).wf(),
            old(self)@.has_election(*election_id),
            old(self)@.candidates[*election_id as int].contains_key(candidate_id@),
            old(self)@.candidates[*election_id as int][candidate_id@].votes_received + weight
                <= u64::MAX,
        ensures
            final(self).wf(),
            final(self)@ == old(self)@.recorded(*election_id, voter@, candidate_id@, weight, now),
    {
        let elections = self.elections.len();
        assert(*election_id < elections);
        let idx = *election_id as usize;
        let vote = Vote {
            voter: voter.clone(),
            candidate_id: candidate_id.clone(),
            weight,
            timestamp: now,
        };
        let ghost cast = vote@;
        let ghost ledger_before = self.votes@[idx as int]@;
        let ghost directory_before = self.candidates@[idx as int]@;
        proof {
            assert(old(self)@.votes[idx as int] == ledger_map(ledger_before));
            assert(old(self)@.candidates[idx as int] == candidate_map(directory_before));
        }
        match find_voter(&self.votes[idx], voter) {
            Some(place) => {
                self.votes[idx][place].votes.push(vote);
                proof {
                    let ledger = self.votes@[idx as int]@;
                    lemma_assoc_at(voter_names(ledger_before), voter_ballots(ledger_before), place as int);
                    assert(voter_names(ledger) =~= voter_names(ledger_before));
                    assert(vote_views(ledger[place as int].votes@) =~= vote_views(
                        ledger_before[place as int].votes@,
                    ).push(cast));
                    assert(voter_ballots(ledger) =~= voter_ballots(ledger_before).update(
                        place as int,
                        voter_ballots(ledger_before)[place as int].push(cast),
                    ));
                    lemma_assoc_update(
                        voter_names(ledger_before),
                        voter_ballots(ledger_before),
                        place as int,
                        voter_ballots(ledger_before)[place as int].push(cast),
                    );
                    assert(old(self)@.ballots(*election_id, voter@) == voter_ballots(
                        ledger_before,
                    )[place as int]);
                }
            },
            None => {
                let mut cast_now: Vec<Vote> = Vec::new();
                cast_now.push(vote);
                self.votes[idx].push(LedgerEntry { voter: voter.clone(), votes: cast_now });
                proof {
                    let ledger = self.votes@[idx as int]@;
                    assert(voter_names(ledger) =~= voter_names(ledger_before).push(voter@));
                    assert(vote_views(cast_now@) =~= Seq::<VoteView>::empty().push(cast));
                    assert(voter_ballots(ledger) =~= voter_ballots(ledger_before).push(
                        Seq::<VoteView>::empty().push(cast),
                    ));
                    lemma_assoc_push(
                        voter_names(ledger_before),
                        voter_ballots(ledger_before),
                        voter@,
                        Seq::<VoteView>::empty().push(cast),
                    );
                    lemma_assoc_absent(
                        voter_names(ledger_before),
                        voter_ballots(ledger_before),
                        voter@,
                    );
                    assert(old(self)@.ballots(*election_id, voter@) == Seq::<VoteView>::empty());
                }
            },
        }
        assert(ledger_map(self.votes@[idx as int]@) == ledger_map(ledger_before).insert(
            voter@,
            old(self)@.ballots(*election_id, voter@).push(cast),
        ));
        match find_candidate(&self.candidates[idx], candidate_id) {
            Some(place) => {
                proof {
                    lemma_assoc_at(
                        candidate_names(directory_before),
                        candidate_views(directory_before),
                        place as int,
                    );
                }
                let tally = self.candidates[idx][place].votes_received;
                self.candidates[idx][place].votes_received = tally + weight as u64;
                proof {
                    let directory = self.candidates@[idx as int]@;
                    assert(candidate_names(directory) =~= candidate_names(directory_before));
                    assert(candidate_views(directory) =~= candidate_views(directory_before).update(
                        place as int,
                        directory[place as int]@,
                    ));
                    lemma_assoc_update(
                        candidate_names(directory_before),
                        candidate_views(directory_before),
                        place as int,
                        directory[place as int]@,
                    );
                }
            },
            None => {
                proof {
                    lemma_assoc_absent(
                        candidate_names(directory_before),
                        candidate_views(directory_before),
                        candidate_id@,
                    );
                }
            },
        }
        proof {
            let after = self@;
            let expected = old(self)@.recorded(*election_id, voter@, candidate_id@, weight, now);
            assert(after.elections =~= expected.elections);
            assert(after.candidates =~= expected.candidates);
            assert(after.votes =~= expected.votes);
        }
    }

    /// Settles a batch of votes for `voter` under the rules of `election`, the
    /// election as it was when the vote came in.
    ///
    /// The batch is held once against the budget of the voting model, with
    /// what the voter has cast read from the ledger as it is at this call, so
    /// that a budget is also kept when this call resumes a vote that waited.
    /// Then every pair is recorded in order at time `now`, with weight one
    /// under `Simple`. A batch is settled whole or not at all: where it is over
    /// budget, names an account that has not applied, or would take a tally out
    /// of range, the call fails and the registry stays as it was.
    ///
    /// The result of a settled batch is `false`.
    pub fn handle_voting(
        &mut self,
        voter: &AccountId,
        election: &Election,
        votes: Vec<(AccountId, u32)>,
        now: u64,
    ) -> (settled: Result<bool, ElectionError>)
        requires
            old(self).wf(),
        ensures
            final(self).wf(),
            settles(old(self)@, final(self)@, election@, voter@, batch_view(votes@), now, settled),
    {
        match self.check_budget(voter, election, &votes) {
            Err(error) => {
                return Err(error);
            },
            Ok(_) => {},
        }
        if votes.len() == 0 {
            return Ok(false);
        }
        if election.id >= self.election_counter {
            return Err(ElectionError::VotesNotFound);
        }
        match self.check_recordable(election, &votes) {
            Err(error) => {
                return Err(error);
            },
            Ok(_) => {},
        }
        let ghost before = self@;
        let ghost id = election.id as int;
        let ghost counted = counted_batch(election.voting_type, batch_view(votes@));
        let ghost filed = before.candidates[id];
        let ghost cast_before = before.ballots(election.id, voter@);
        proof {
            self.lemma_view_wf();
            lemma_tallied_empty(filed);
            assert(counted.take(0) =~= Seq::empty());
            assert(before.candidates =~= before.candidates.update(id, filed));
        }
        let mut i: usize = 0;
        while i < votes.len()
            invariant
                i <= votes.len(),
                self.wf(),
                id == election.id,
                before.wf(),
                before.has_election(election.id),
                counted == counted_batch(election.voting_type, batch_view(votes@)),
                filed == before.candidates[id],
                cast_before == before.ballots(election.id, voter@),
                all_recordable(filed, counted),
                self@.owner == before.owner,
                self@.admins == before.admins,
                self@.elections == before.elections,
                self@.candidates == before.candidates.update(id, tallied(filed, counted.take(i as int))),
                i == 0 ==> self@.votes == before.votes,
                i > 0 ==> self@.votes == before.votes.update(
                    id,
                    before.votes[id].insert(
                        voter@,
                        cast_before + cast_votes(voter@, counted.take(i as int), now),
                    ),
                ),
            decreases votes.len() - i,
        {
            let weight = weight_counted(&election.voting_type, votes[i].1);
            let ghost name = votes[i as int].0@;
            let ghost current = self@;
            proof {
                assert(recordable(filed, counted, i as int));
                assert(counted[i as int] == (name, weight));
                lemma_weight_for_step(counted, i as int, name);
            }
            self.record_vote(voter, &votes[i].0, weight, &election.id, now);
            proof {
                let next = counted.take(i + 1);
                assert forall|k: Seq<char>| filed.contains_key(k) implies (#[trigger] tallied(
                    filed,
                    next,
                )[k]) == current.candidates[id].insert(
                    name,
                    CandidateView {
                        votes_received: (current.candidates[id][name].votes_received + weight) as u64,
                        ..current.candidates[id][name]
                    },
                )[k] by {
                    lemma_weight_for_step(counted, i as int, k);
                }
                assert(self@.candidates[id] =~= tallied(filed, next));
                assert(self@.candidates =~= before.candidates.update(id, tallied(filed, next)));
                let vote = VoteView { voter: voter@, candidate_id: name, weight, timestamp: now };
                assert(cast_votes(voter@, next, now) =~= cast_votes(
                    voter@,
                    counted.take(i as int),
                    now,
                ).push(vote));
                if i == 0 {
                    assert(current.ballots(election.id, voter@) == cast_before);
                    assert(cast_before.push(vote) =~= cast_before + cast_votes(voter@, next, now));
                } else {
                    assert(current.ballots(election.id, voter@) == cast_before + cast_votes(
                        voter@,
                        counted.take(i as int),
                        now,
                    ));
                    assert((cast_before + cast_votes(voter@, counted.take(i as int), now)).push(vote)
                        =~= cast_before + cast_votes(voter@, next, now));
                }
                assert(self@.votes[id] =~= before.votes[id].insert(
                    voter@,
                    cast_before + cast_votes(voter@, next, now),
                ));
                assert(self@.votes =~= before.votes.update(
                    id,
                    before.votes[id].insert(voter@, cast_before + cast_votes(voter@, next, now)),
                ));
            }
            i += 1;
        }
        proof {
            assert(counted.take(i as int) =~= counted);
        }
        Ok(false)
    }

    /// Casts a batch of votes for the caller in an election. The call must
    /// come in the voting window, both ends included. What follows depends on
    /// the election's rule of eligibility as it stands at this call: see
    /// [`resolves`].
    pub fn vote(&mut self, ctx: &CallContext, election_id: ElectionId, votes: Vec<(AccountId, u32)>) -> (outcome:
        Result<VoteOutcome, ElectionError>)
        requires
            old(self).wf(),
        ensures
            final(self).wf(),
            match old(self)@.voting_error(election_id, ctx.block_timestamp) {
                Some(error) => {
                    &&& outcome matches Err(e)
                    &&& e == error
                    &&& final(self)@ == old(self)@
                },
                None => resolves(
                    old(self)@,
                    final(self)@,
                    old(self)@.elections[election_id as int],
                    ctx.predecessor_account_id@,
                    batch_view(votes@),
                    ctx.block_timestamp,
                    outcome,
                ),
            },
    {
        if election_id >= self.election_counter {
            return Err(ElectionError::ElectionNotFound);
        }
        let elections = self.elections.len();
        assert(election_id < elections);
        let idx = election_id as usize;
        let election = self.elections[idx].clone();
        let now = ctx.block_timestamp;
        if !(now >= election.start_date && now <= election.end_date) {
            return Err(ElectionError::VotingNotActive);
        }
        let voter = ctx.predecessor_account_id.clone();
        self.assert_voter_eligible(&election, &voter, votes, now)
    }

    /// Resolves whether `voter` may vote under the rule of `election`, and
    /// settles the batch where that is known at once: see [`resolves`].
    pub fn assert_voter_eligible(
        &mut self,
        election: &Election,
        voter: &AccountId,
        votes: Vec<(AccountId, u32)>,
        now: u64,
    ) -> (outcome: Result<VoteOutcome, ElectionError>)
        requires
            old(self).wf(),
        ensures
            final(self).wf(),
            resolves(old(self)@, final(self)@, election@, voter@, batch_view(votes@), now, outcome),
    {
        match &election.voter_eligibility {
            EligibilityType::Open => {
                match self.handle_voting(voter, election, votes, now) {
                    Ok(accepted) => Ok(VoteOutcome::Value(accepted)),
                    Err(error) => Err(error),
                }
            },
            EligibilityType::ListBased(contract_id, list_id) => {
                let query = RegistrationQuery {
                    contract_id: contract_id.clone(),
                    list_id: Some(list_number(*list_id)),
                    account_id: voter.clone(),
                    gas: list_query_gas(),
                };
                Ok(
                    VoteOutcome::Promise(
                        PendingVote {
                            query,
                            callback_gas: callback_gas(),
                            voter: voter.clone(),
                            election: election.clone(),
                            votes,
                        },
                    ),
                )
            },
            EligibilityType::TokenBased(_token_contract, _min_balance) => {
                Err(ElectionError::UnsupportedEligibility)
            },
            EligibilityType::Custom(_contract_addr) => {
                Err(ElectionError::UnsupportedEligibility)
            },
        }
    }

    /// Resumes a vote that waited for the authority's answer. `voter`,
    /// `election` and `votes` are those of the vote as it came in; the batch is
    /// settled under that election's rules, as by [`Contract::handle_voting`].
    /// Where the authority did not confirm the voter, the batch is dropped: the
    /// result is `false` and the registry stays as it was.
    pub fn eligible_voting_callback(
        &mut self,
        voter: &AccountId,
        election: &Election,
        votes: Vec<(AccountId, u32)>,
        call_result: Result<bool, PromiseError>,
        now: u64,
    ) -> (settled: Result<bool, ElectionError>)
        requires
            old(self).wf(),
        ensures
            final(self).wf(),
            resumes(
                old(self)@,
                final(self)@,
                election@,
                voter@,
                batch_view(votes@),
                now,
                confirmed(call_result),
                settled,
            ),
    {
        if !eligibility_confirmed(&call_result) {
            return Ok(false);
        }
        self.handle_voting(voter, election, votes, now)
    }
}

} // verus!
