//! What holds of the registry whatever is done to it.

use vstd::prelude::*;
use crate::elections::{ApplicationStatus, CandidateView, ElectionView};
use crate::error::ElectionError;
use crate::model::{
    all_recordable, batch_weight, cast_votes, counted_batch, lemma_counted_as_written,
    lemma_simple_batch_weight, lemma_weight_for_step, recordable, resumes, reviewed, settles,
    votes_weight_for, weight_for, Batch, ContractView,
};
use crate::vote::VoteView;
use crate::vote::{resolves, VoteOutcome};
use crate::{ElectionId, StorageKey, VotingType};

verus! {

/// Every election of a registry carries its own number, its nomination ends
/// no later than its voting starts, and its voting starts before it ends.
pub proof fn law_windows_ordered(registry: ContractView, id: ElectionId)
    requires
        registry.wf(),
        registry.has_election(id),
    ensures
        registry.elections[id as int].id == id,
        registry.elections[id as int].nomination_end_date <= registry.elections[id as int].start_date,
        registry.elections[id as int].start_date < registry.elections[id as int].end_date,
{
}

/// An election whose windows are out of order is not created, whoever asks.
pub proof fn law_disordered_windows_rejected(
    registry: ContractView,
    caller: Seq<char>,
    deposit: u128,
    start_date: u64,
    end_date: u64,
    nomination_end_date: u64,
)
    requires
        !(nomination_end_date <= start_date < end_date),
    ensures
        registry.create_election_error(caller, deposit, start_date, end_date, nomination_end_date) is Some,
{
}

/// The registry with an election that was let in is a registry: the new
/// election has ordered windows like those before it.
pub proof fn law_creation_keeps_registry(
    registry: ContractView,
    caller: Seq<char>,
    deposit: u128,
    election: ElectionView,
)
    requires
        registry.wf(),
        election.id == registry.elections.len(),
        registry.create_election_error(
            caller,
            deposit,
            election.start_date,
            election.end_date,
            election.nomination_end_date,
        ) is None,
    ensures
        registry.with_election(election).wf(),
        registry.with_election(election).has_election(election.id),
        registry.with_election(election).elections[election.id as int] == election,
        registry.with_election(election).candidates[election.id as int] == Map::<
            Seq<char>,
            CandidateView,
        >::empty(),
        !registry.provisioned(StorageKey::Candidates { election_id: election.id }),
        !registry.provisioned(StorageKey::ElectionVotes { election_id: election.id }),
        registry.with_election(election).provisioned(
            StorageKey::Candidates { election_id: election.id },
        ),
        registry.with_election(election).provisioned(
            StorageKey::ElectionVotes { election_id: election.id },
        ),
{
}

/// A registry keeps a directory and a ledger for exactly its elections.
pub proof fn law_stores_follow_elections(registry: ContractView, id: ElectionId)
    requires
        registry.wf(),
    ensures
        registry.provisioned(StorageKey::Candidates { election_id: id }) == registry.has_election(id),
        registry.provisioned(StorageKey::ElectionVotes { election_id: id }) == registry.has_election(
            id,
        ),
        registry.has_election(id) == (id < registry.candidates.len()),
        registry.has_election(id) == (id < registry.votes.len()),
{
}

/// The registry with a candidate filed under its own name is a registry.
pub proof fn law_filing_keeps_registry(registry: ContractView, id: ElectionId, candidate: CandidateView)
    requires
        registry.wf(),
        registry.has_election(id),
    ensures
        registry.with_candidate(id, candidate).wf(),
        registry.with_candidate(id, candidate).elections == registry.elections,
{
}

/// Where every pair of a batch can be recorded, no tally leaves its range:
/// each candidate's tally and what the batch gives to the candidate fit
/// together.
pub proof fn lemma_tallies_in_range(
    candidates: Map<Seq<char>, CandidateView>,
    counted: Batch,
    candidate: Seq<char>,
    n: int,
)
    requires
        all_recordable(candidates, counted),
        candidates.contains_key(candidate),
        0 <= n <= counted.len(),
    ensures
        candidates[candidate].votes_received + weight_for(counted.take(n), candidate) <= u64::MAX,
    decreases n,
{
    if n > 0 {
        lemma_weight_for_step(counted, n - 1, candidate);
        if counted[n - 1].0 == candidate {
            assert(recordable(candidates, counted, n - 1));
        } else {
            lemma_tallies_in_range(candidates, counted, candidate, n - 1);
        }
    }
}

/// An account that has not applied gets nothing from a batch whose pairs
/// can all be recorded.
pub proof fn lemma_unfiled_gets_nothing(
    candidates: Map<Seq<char>, CandidateView>,
    counted: Batch,
    account: Seq<char>,
    n: int,
)
    requires
        all_recordable(candidates, counted),
        !candidates.contains_key(account),
        0 <= n <= counted.len(),
    ensures
        weight_for(counted.take(n), account) == 0,
    decreases n,
{
    if n > 0 {
        lemma_weight_for_step(counted, n - 1, account);
        assert(recordable(candidates, counted, n - 1));
        lemma_unfiled_gets_nothing(candidates, counted, account, n - 1);
    }
}

/// A settled batch adds to each account's tally exactly the weights that
/// count for the account, and changes no election.
pub proof fn law_tallies_grow_by_weights(
    registry: ContractView,
    election: ElectionView,
    voter: Seq<char>,
    batch: Batch,
    now: u64,
    account: Seq<char>,
)
    requires
        registry.wf(),
        registry.settlement_error(election, voter, batch) is None,
    ensures
        registry.settled(election, voter, batch, now).wf(),
        registry.settled(election, voter, batch, now).elections == registry.elections,
        registry.settled(election, voter, batch, now).tally(election.id, account) == registry.tally(
            election.id,
            account,
        ) + weight_for(counted_batch(election.voting_type, batch), account),
{
    let counted = counted_batch(election.voting_type, batch);
    if batch.len() > 0 {
        let filed = registry.candidates[election.id as int];
        assert(all_recordable(filed, counted));
        assert(counted.take(counted.len() as int) =~= counted);
        if filed.contains_key(account) {
            lemma_tallies_in_range(filed, counted, account, counted.len() as int);
        } else {
            lemma_unfiled_gets_nothing(filed, counted, account, counted.len() as int);
        }
    } else {
        assert(counted =~= Seq::empty());
    }
}

/// A settled batch appends its votes, in the order of the batch and dated
/// now, to what the voter had cast in the election. The votes cast before
/// stay as they were, and so do the votes of every other voter and election.
pub proof fn law_votes_appended(
    registry: ContractView,
    election: ElectionView,
    voter: Seq<char>,
    batch: Batch,
    now: u64,
    id: ElectionId,
    account: Seq<char>,
)
    requires
        registry.wf(),
        registry.settlement_error(election, voter, batch) is None,
    ensures
        registry.settled(election, voter, batch, now).ballots(election.id, voter) == registry.ballots(
            election.id,
            voter,
        ) + cast_votes(voter, counted_batch(election.voting_type, batch), now),
        id != election.id || account != voter ==> registry.settled(
            election,
            voter,
            batch,
            now,
        ).ballots(id, account) == registry.ballots(id, account),
{
    let counted = counted_batch(election.voting_type, batch);
    if batch.len() == 0 {
        assert(cast_votes(voter, counted, now) =~= Seq::empty());
        assert(registry.ballots(election.id, voter) + Seq::empty() =~= registry.ballots(
            election.id,
            voter,
        ));
    }
}

/// The votes cast with a batch give to each candidate what the batch gives.
pub proof fn lemma_cast_votes_carry_weights(voter: Seq<char>, counted: Batch, now: u64, candidate: Seq<char>)
    ensures
        votes_weight_for(cast_votes(voter, counted, now), candidate) == weight_for(counted, candidate),
    decreases counted.len(),
{
    if counted.len() > 0 {
        lemma_cast_votes_carry_weights(voter, counted.drop_last(), now, candidate);
        assert(cast_votes(voter, counted, now).drop_last() =~= cast_votes(
            voter,
            counted.drop_last(),
            now,
        ));
    }
}

/// What two runs of votes give to a candidate is what they give together.
pub proof fn lemma_votes_weight_adds(earlier: Seq<VoteView>, later: Seq<VoteView>, candidate: Seq<char>)
    ensures
        votes_weight_for(earlier + later, candidate) == votes_weight_for(earlier, candidate)
            + votes_weight_for(later, candidate),
    decreases later.len(),
{
    if later.len() == 0 {
        assert(earlier + later =~= earlier);
    } else {
        lemma_votes_weight_adds(earlier, later.drop_last(), candidate);
        assert((earlier + later).drop_last() =~= earlier + later.drop_last());
    }
}

/// A settled batch keeps tallies and ledger in step: a candidate's tally
/// grows by exactly what the votes appended to the voter's entry give to the
/// candidate.
pub proof fn law_tallies_follow_ledger(
    registry: ContractView,
    election: ElectionView,
    voter: Seq<char>,
    batch: Batch,
    now: u64,
    candidate: Seq<char>,
)
    requires
        registry.wf(),
        registry.settlement_error(election, voter, batch) is None,
    ensures
        registry.settled(election, voter, batch, now).tally(election.id, candidate) - registry.tally(
            election.id,
            candidate,
        ) == votes_weight_for(
            registry.settled(election, voter, batch, now).ballots(election.id, voter),
            candidate,
        ) - votes_weight_for(registry.ballots(election.id, voter), candidate),
{
    let counted = counted_batch(election.voting_type, batch);
    law_tallies_grow_by_weights(registry, election, voter, batch, now, candidate);
    law_votes_appended(registry, election, voter, batch, now, election.id, voter);
    lemma_cast_votes_carry_weights(voter, counted, now, candidate);
    lemma_votes_weight_adds(
        registry.ballots(election.id, voter),
        cast_votes(voter, counted, now),
        candidate,
    );
}

/// Under `Simple` a settled batch adds one vote for each of its pairs to what
/// the voter had cast, and the voter's votes in the election stay within the
/// election's votes per voter.
pub proof fn law_simple_budget_kept(
    registry: ContractView,
    election: ElectionView,
    voter: Seq<char>,
    batch: Batch,
    now: u64,
)
    requires
        registry.wf(),
        election.voting_type == VotingType::Simple,
        registry.settlement_error(election, voter, batch) is None,
    ensures
        registry.settled(election, voter, batch, now).ballots(election.id, voter).len()
            == registry.ballots(election.id, voter).len() + batch.len(),
        registry.settled(election, voter, batch, now).ballots(election.id, voter).len()
            <= election.votes_per_voter,
        batch_weight(counted_batch(election.voting_type, batch)) == batch.len(),
{
    lemma_simple_batch_weight(batch);
}

/// Under `Weighted` the weights of a settled batch add up to no more than the
/// election's maximum, and under `PointBased` its points to no more than the
/// election's total.
pub proof fn law_weight_budget_kept(
    registry: ContractView,
    election: ElectionView,
    voter: Seq<char>,
    batch: Batch,
)
    requires
        registry.settlement_error(election, voter, batch) is None,
    ensures
        election.voting_type matches VotingType::Weighted(max_weight) ==> batch_weight(batch)
            <= max_weight,
        election.voting_type matches VotingType::PointBased(total_points) ==> batch_weight(batch)
            <= total_points,
        election.voting_type != VotingType::Simple ==> counted_batch(election.voting_type, batch)
            == batch,
{
    if election.voting_type != VotingType::Simple {
        lemma_counted_as_written(election.voting_type, batch);
    }
}

/// A second review with the same status leaves the registry as the first
/// made it. An approval is dated when it is made, so two approvals are meant
/// to be made at the same time.
pub proof fn law_review_idempotent(
    registry: ContractView,
    id: ElectionId,
    candidate: Seq<char>,
    status: ApplicationStatus,
    first: u64,
    second: u64,
)
    requires
        registry.wf(),
        registry.has_election(id),
        registry.candidates[id as int].contains_key(candidate),
        status == ApplicationStatus::Approved ==> second == first,
    ensures
        ({
            let once = registry.with_candidate(
                id,
                reviewed(registry.candidates[id as int][candidate], status, first),
            );
            let twice = once.with_candidate(
                id,
                reviewed(once.candidates[id as int][candidate], status, second),
            );
            &&& once.candidates[id as int].contains_key(candidate)
            &&& twice == once
            &&& twice.candidates[id as int][candidate].status == status
        }),
{
    let once = registry.with_candidate(
        id,
        reviewed(registry.candidates[id as int][candidate], status, first),
    );
    let twice = once.with_candidate(id, reviewed(once.candidates[id as int][candidate], status, second));
    assert(twice.candidates[id as int] =~= once.candidates[id as int]);
    assert(twice.candidates =~= once.candidates);
}

/// A vote under a rule of lists that the authority does not confirm leaves
/// no trace: the registry is the same after the vote came in and after the
/// answer came back as it was before, so no vote is recorded and no tally
/// changes, and the vote comes to `false`.
pub proof fn law_unconfirmed_vote_leaves_no_trace(
    before: ContractView,
    waiting: ContractView,
    after: ContractView,
    election: ElectionView,
    voter: Seq<char>,
    batch: Batch,
    asked: u64,
    answered: u64,
    outcome: Result<VoteOutcome, ElectionError>,
    settled: Result<bool, ElectionError>,
)
    requires
        election.voter_eligibility is ListBased,
        resolves(before, waiting, election, voter, batch, asked, outcome),
        resumes(waiting, after, election, voter, batch, answered, false, settled),
    ensures
        outcome matches Ok(VoteOutcome::Promise(_)),
        waiting == before,
        after == before,
        settled == Ok::<bool, ElectionError>(false),
        forall|id: ElectionId, account: Seq<char>|
            after.ballots(id, account) == before.ballots(id, account) && after.tally(id, account)
                == before.tally(id, account),
{
}

/// A vote that waited and is confirmed is settled against the registry as it
/// is when the answer comes back, under the election as it was when the vote
/// came in: what the voter cast in between counts against the budget.
pub proof fn law_resumed_vote_settles_on_current_ledger(
    waiting: ContractView,
    after: ContractView,
    election: ElectionView,
    voter: Seq<char>,
    batch: Batch,
    answered: u64,
    settled: Result<bool, ElectionError>,
)
    requires
        resumes(waiting, after, election, voter, batch, answered, true, settled),
    ensures
        settles(waiting, after, election, voter, batch, answered, settled),
        settled is Ok <==> waiting.settlement_error(election, voter, batch) is None,
        settled is Ok && election.voting_type == VotingType::Simple ==> waiting.ballots(
            election.id,
            voter,
        ).len() + batch.len() <= election.votes_per_voter,
{
}

} // verus!
