//! The reasons for which the registry turns a call down.

use vstd::prelude::*;

verus! {

/// Why a call was rejected. A rejected call leaves the registry as it was.
#[derive(Debug, Clone, Copy, PartialEq, Eq, Structural)]
pub enum ElectionError {
    /// The caller is neither the owner nor an administrator.
    NotAdminOrOwner,
    /// The deposit attached to a privileged call is below the minimum.
    InsufficientDeposit,
    /// The nomination window ends after voting starts.
    NominationOverlapsVoting,
    /// Voting does not start before it ends.
    EmptyVotingWindow,
    /// Every election identifier has been handed out.
    ElectionIdsExhausted,
    /// No election has the given identifier.
    ElectionNotFound,
    /// The call came outside the nomination window.
    NominationNotActive,
    /// The election has no candidate directory.
    CandidatesNotFound,
    /// The named account has not applied to the election.
    CandidateNotFound,
    /// The call came outside the voting window.
    VotingNotActive,
    /// The election has no vote ledger.
    VotesNotFound,
    /// The batch would take the voter past the election's votes per voter.
    TooManyVotes,
    /// The weights of the batch add up to more than the election allows.
    WeightExceeded,
    /// The points of the batch add up to more than the election allows.
    PointsExceeded,
    /// A candidate's tally would leave the range of its counter.
    TallyOverflow,
    /// The election's eligibility rule is one that is not supported.
    UnsupportedEligibility,
}

impl ElectionError {
    /// The text that describes this error to the caller.
    pub open spec fn message_text(self) -> Seq<char> {
        match self {
            ElectionError::NotAdminOrOwner => "Only contract admin or owner can call this method"@,
            ElectionError::InsufficientDeposit => "At least one yoctoNEAR must be attached"@,
            ElectionError::NominationOverlapsVoting => "Nomination must end before voting starts"@,
            ElectionError::EmptyVotingWindow => "Start date must be before end date"@,
            ElectionError::ElectionIdsExhausted => "Election identifiers are exhausted"@,
            ElectionError::ElectionNotFound => "Election not found"@,
            ElectionError::NominationNotActive => "Nomination period is not active"@,
            ElectionError::CandidatesNotFound => "Candidates map not found"@,
            ElectionError::CandidateNotFound => "Candidate not found"@,
            ElectionError::VotingNotActive => "Voting period is not active"@,
            ElectionError::VotesNotFound => "Votes not found for election"@,
            ElectionError::TooManyVotes => "Exceeds allowed number of votes"@,
            ElectionError::WeightExceeded => "Exceeds maximum allowed weight"@,
            ElectionError::PointsExceeded => "Exceeds total allowed points"@,
            ElectionError::TallyOverflow => "Candidate tally overflows"@,
            ElectionError::UnsupportedEligibility => "not implemented"@,
        }
    }

    /// The text that describes this error to the caller.
    pub fn message(&self) -> (text: &'static str)
        ensures
            text@ == self.message_text(),
    {
        match self {
            ElectionError::NotAdminOrOwner => "Only contract admin or owner can call this method",
            ElectionError::InsufficientDeposit => "At least one yoctoNEAR must be attached",
            ElectionError::NominationOverlapsVoting => "Nomination must end before voting starts",
            ElectionError::EmptyVotingWindow => "Start date must be before end date",
            ElectionError::ElectionIdsExhausted => "Election identifiers are exhausted",
            ElectionError::ElectionNotFound => "Election not found",
            ElectionError::NominationNotActive => "Nomination period is not active",
            ElectionError::CandidatesNotFound => "Candidates map not found",
            ElectionError::CandidateNotFound => "Candidate not found",
            ElectionError::VotingNotActive => "Voting period is not active",
            ElectionError::VotesNotFound => "Votes not found for election",
            ElectionError::TooManyVotes => "Exceeds allowed number of votes",
            ElectionError::WeightExceeded => "Exceeds maximum allowed weight",
            ElectionError::PointsExceeded => "Exceeds total allowed points",
            ElectionError::TallyOverflow => "Candidate tally overflows",
            ElectionError::UnsupportedEligibility => "not implemented",
        }
    }
}

} // verus!
