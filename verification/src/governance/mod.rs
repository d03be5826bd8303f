//! On-chain governance: proposals, voting, the treasury and the DAO that
//! ties them together.
use vstd::prelude::*;
use crate::governance::proposals::ProposalStatus;

pub mod dao;
pub mod proposals;
pub mod token;
pub mod treasury;
pub mod voting;

verus! {

/// Governance parameters.
#[derive(Debug, Clone, Copy, PartialEq, Eq, Structural)]
pub struct GovernanceConfig {
    pub voting_delay: u64,
    pub voting_period: u64,
    pub proposal_threshold: u64,
    pub quorum_votes: u64,
    pub timelock_delay: u64,
}

impl Default for GovernanceConfig {
    /// Voting starts after one block and lasts 17280 blocks; proposing takes
    /// 10,000 tokens, quorum is 400,000 votes, no timelock.
    fn default() -> (r: GovernanceConfig)
        ensures
            r == (GovernanceConfig {
                voting_delay: 1,
                voting_period: 17280,
                proposal_threshold: 10_000,
                quorum_votes: 400_000,
                timelock_delay: 0,
            }),
    {
        GovernanceConfig {
            voting_delay: 1,
            voting_period: 17280,
            proposal_threshold: 10_000,
            quorum_votes: 400_000,
            timelock_delay: 0,
        }
    }
}

/// Governance parameters that a proposal can change.
#[derive(Debug, Clone, Copy, PartialEq, Eq, Structural)]
pub enum GovernanceParameter {
    VotingDelay,
    VotingPeriod,
    ProposalThreshold,
    QuorumVotes,
    TimelockDelay,
}

/// Errors of governance operations.
#[derive(Debug, Clone, Copy, PartialEq, Eq, Structural)]
pub enum GovernanceError {
    /// The creator holds fewer tokens than the proposal threshold.
    InsufficientVotingPower { voting_power: u64, threshold: u64 },
    /// The voter holds no tokens.
    NoVotingPower,
    /// No proposal has the id.
    ProposalNotFound,
    /// The proposal's status does not allow execution.
    CannotExecute { status: ProposalStatus },
    /// A proposal with the id exists already.
    ProposalIdExists,
    /// The member exists already.
    MemberAlreadyExists,
    /// No member has the address.
    MemberNotFound,
    /// The parameter value is not a number.
    InvalidParameterValue { parameter: GovernanceParameter },
    /// No parameter has the key.
    UnknownParameter,
    /// A voting session for the proposal exists already.
    SessionAlreadyExists,
    /// No voting session for the proposal.
    SessionNotFound,
    /// The voter voted in this session already.
    AlreadyVoted,
    /// The treasury holds less than the transfer.
    InsufficientFunds,
}

} // verus!
