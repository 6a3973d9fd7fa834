//! The registry's content as plain data, for keeping it between calls.

use vstd::prelude::*;
use crate::account::AccountId;
use crate::elections::{account_names, Candidate, Election};
use crate::model::ContractView;
use crate::vote::LedgerEntry;
use crate::{candidate_map, candidate_names, ledger_map, voter_names, Contract};

verus! {

/// What a registry holds, laid open. Not every such value is a registry: see
/// [`ContractState::well_formed`].
#[derive(Debug)]
pub struct ContractState {
    pub owner: AccountId,
    pub admins: Vec<AccountId>,
    /// The elections in the order of their numbers.
    pub elections: Vec<Election>,
    /// The candidates of each election.
    pub candidates: Vec<Vec<Candidate>>,
    /// The voters of each election with their votes.
    pub votes: Vec<Vec<LedgerEntry>>,
}

impl View for ContractState {
    type V = ContractView;

    open spec fn view(&self) -> ContractView {
        ContractView {
            owner: self.owner@,
            admins: account_names(self.admins@).to_set(),
            elections: Seq::new(self.elections@.len(), |i: int| self.elections@[i]@),
            candidates: Seq::new(self.candidates@.len(), |i: int| candidate_map(self.candidates@[i]@)),
            votes: Seq::new(self.votes@.len(), |i: int| ledger_map(self.votes@[i]@)),
        }
    }
}

/// Every election stands at the place of its number and has ordered windows.
pub open spec fn elections_in_order(elections: Seq<Election>) -> bool {
    forall|i: int|
        0 <= i < elections.len() ==> (#[trigger] elections[i]).id == i
            && elections[i]@.windows_ordered()
}

/// No account is filed twice in a directory.
pub open spec fn directories_distinct(candidates: Seq<Vec<Candidate>>) -> bool {
    forall|i: int| 0 <= i < candidates.len() ==> candidate_names(#[trigger] candidates[i]@).no_duplicates()
}

/// No voter has two entries in a ledger.
pub open spec fn ledgers_distinct(votes: Seq<Vec<LedgerEntry>>) -> bool {
    forall|i: int| 0 <= i < votes.len() ==> voter_names(#[trigger] votes[i]@).no_duplicates()
}

impl ContractState {
    /// Whether this is the content of a registry: every election has a
    /// directory and a ledger, stands at the place of its number and has
    /// ordered windows, and no account is filed twice in a directory or in a
    /// ledger.
    pub open spec fn well_formed(&self) -> bool {
        &&& self.elections@.len() <= u64::MAX
        &&& self.candidates@.len() == self.elections@.len()
        &&& self.votes@.len() == self.elections@.len()
        &&& elections_in_order(self.elections@)
        &&& directories_distinct(self.candidates@)
        &&& ledgers_distinct(self.votes@)
    }
}

/// Whether every election stands at the place of its number and has ordered
/// windows.
pub fn check_elections(elections: &Vec<Election>) -> (ordered: bool)
    ensures
        ordered == elections_in_order(elections@),
{
    let mut i: usize = 0;
    while i < elections.len()
        invariant
            i <= elections.len(),
            forall|j: int|
                0 <= j < i ==> (#[trigger] elections@[j]).id == j && elections@[j]@.windows_ordered(),
        decreases elections.len() - i,
    {
        let election = &elections[i];
        if election.id != i as u64 || election.nomination_end_date > election.start_date
            || election.start_date >= election.end_date {
            return false;
        }
        i += 1;
    }
    true
}

/// Whether no account is filed twice in the directory.
pub fn check_directory(directory: &Vec<Candidate>) -> (distinct: bool)
    ensures
        distinct == candidate_names(directory@).no_duplicates(),
{
    let ghost names = candidate_names(directory@);
    let mut i: usize = 0;
    while i < directory.len()
        invariant
            i <= directory.len(),
            names == candidate_names(directory@),
            forall|a: int, b: int| 0 <= a < i && a < b < names.len() ==> names[a] != names[b],
        decreases directory.len() - i,
    {
        let mut j: usize = i + 1;
        while j < directory.len()
            invariant
                i < j <= directory.len(),
                names == candidate_names(directory@),
                forall|b: int| i < b < j ==> names[i as int] != names[b],
            decreases directory.len() - j,
        {
            if directory[i].account_id.same(&directory[j].account_id) {
                assert(names[i as int] == names[j as int]);
                return false;
            }
            j += 1;
        }
        i += 1;
    }
    assert forall|a: int, b: int| 0 <= a < names.len() && 0 <= b < names.len() && a != b implies names[a]
        != names[b] by {
        if a < b {
            assert(names[a] != names[b]);
        } else {
            assert(names[b] != names[a]);
        }
    }
    true
}

/// Whether no voter has two entries in the ledger.
pub fn check_ledger(ledger: &Vec<LedgerEntry>) -> (distinct: bool)
    ensures
        distinct == voter_names(ledger@).no_duplicates(),
{
    let ghost names = voter_names(ledger@);
    let mut i: usize = 0;
    while i < ledger.len()
        invariant
            i <= ledger.len(),
            names == voter_names(ledger@),
            forall|a: int, b: int| 0 <= a < i && a < b < names.len() ==> names[a] != names[b],
        decreases ledger.len() - i,
    {
        let mut j: usize = i + 1;
        while j < ledger.len()
            invariant
                i < j <= ledger.len(),
                names == voter_names(ledger@),
                forall|b: int| i < b < j ==> names[i as int] != names[b],
            decreases ledger.len() - j,
        {
            if ledger[i].voter.same(&ledger[j].voter) {
                assert(names[i as int] == names[j as int]);
                return false;
            }
            j += 1;
        }
        i += 1;
    }
    assert forall|a: int, b: int| 0 <= a < names.len() && 0 <= b < names.len() && a != b implies names[a]
        != names[b] by {
        if a < b {
            assert(names[a] != names[b]);
        } else {
            assert(names[b] != names[a]);
        }
    }
    true
}

/// Whether no account is filed twice in any of the directories.
pub fn check_directories(candidates: &Vec<Vec<Candidate>>) -> (distinct: bool)
    ensures
        distinct == directories_distinct(candidates@),
{
    let mut i: usize = 0;
    while i < candidates.len()
        invariant
            i <= candidates.len(),
            forall|j: int| 0 <= j < i ==> candidate_names(#[trigger] candidates@[j]@).no_duplicates(),
        decreases candidates.len() - i,
    {
        if !check_directory(&candidates[i]) {
            return false;
        }
        i += 1;
    }
    true
}

/// Whether no voter has two entries in any of the ledgers.
pub fn check_ledgers(votes: &Vec<Vec<LedgerEntry>>) -> (distinct: bool)
    ensures
        distinct == ledgers_distinct(votes@),
{
    let mut i: usize = 0;
    while i < votes.len()
        invariant
            i <= votes.len(),
            forall|j: int| 0 <= j < i ==> voter_names(#[trigger] votes@[j]@).no_duplicates(),
        decreases votes.len() - i,
    {
        if !check_ledger(&votes[i]) {
            return false;
        }
        i += 1;
    }
    true
}

impl Contract {
    /// The registry's content, laid open.
    pub fn into_state(self) -> (state: ContractState)
        requires
            self.wf(),
        ensures
            state.well_formed(),
            state@ == self@,
    {
        let elections = self.elections.len();
        assert(elections == self.election_counter);
        ContractState {
            owner: self.owner,
            admins: self.admins,
            elections: self.elections,
            candidates: self.candidates,
            votes: self.votes,
        }
    }

    /// The registry with the given content, where that is the content of a
    /// registry, and nothing where it is not.
    pub fn from_state(state: ContractState) -> (restored: Option<Contract>)
        ensures
            match restored {
                Some(contract) => state.well_formed() && contract.wf() && contract@ == state@,
                None => !state.well_formed(),
            },
    {
        let count = state.elections.len();
        if count as u128 > u64::MAX as u128 {
            return None;
        }
        if state.candidates.len() != count || state.votes.len() != count {
            return None;
        }
        if !check_elections(&state.elections) {
            return None;
        }
        if !check_directories(&state.candidates) {
            return None;
        }
        if !check_ledgers(&state.votes) {
            return None;
        }
        Some(
            Contract {
                owner: state.owner,
                admins: state.admins,
                elections: state.elections,
                candidates: state.candidates,
                votes: state.votes,
                election_counter: count as u64,
            },
        )
    }
}

} // verus!
