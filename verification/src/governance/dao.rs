//! A DAO: members, a governance token, proposals voted on with token
//! weight, and the execution of accepted proposals.
use vstd::prelude::*;
use crate::clock::now_millis;
use crate::crypto::{hex_encode, hex_lower};
use crate::governance::{GovernanceConfig, GovernanceError, GovernanceParameter};
use crate::governance::proposals::{
    action_views, ActionView, ProposalAction, ProposalManager, ProposalStatus, ProposalView,
};
use crate::governance::token::GovernanceToken;
use crate::governance::treasury::Treasury;
use crate::governance::voting::{empty_session, session_after_vote, vote_key, SessionView, VotingSystem};
use crate::keyed::{
    keyed_map, keys_distinct, lemma_keyed_map_absent, lemma_keyed_map_index, lemma_keyed_map_len,
    lemma_keyed_map_update, lemma_keys_distinct_push,
};
use crate::types::{parse_u64, parse_u64_spec, str_equal, Address};

verus! {

#[derive(Debug, Clone)]
pub struct Member {
    pub address: Address,
    pub joined_at: u64,
    pub voting_power: u64,
    pub is_active: bool,
}

/// The view of a member.
pub struct MemberView {
    pub address: Seq<char>,
    pub joined_at: u64,
    pub voting_power: u64,
    pub is_active: bool,
}

impl View for Member {
    type V = MemberView;

    open spec fn view(&self) -> MemberView {
        MemberView {
            address: self.address@,
            joined_at: self.joined_at,
            voting_power: self.voting_power,
            is_active: self.is_active,
        }
    }
}

/// The key of a member: its address.
pub open spec fn member_key() -> spec_fn(MemberView) -> Seq<char> {
    |m: MemberView| m.address
}

/// A summary of a DAO.
#[derive(Debug, Clone)]
pub struct DAOInfo {
    pub address: Address,
    pub name: String,
    pub total_members: usize,
    pub active_members: usize,
    pub total_supply: u64,
    pub proposal_threshold: u64,
    pub treasury_balance: u64,
}

/// The first twenty bytes of the UTF-8 encoding of a DAO's name.
pub open spec fn name_prefix(name: Seq<char>) -> Seq<u8> {
    let b = vstd::utf8::encode_utf8(name);
    if b.len() < 20 {
        b
    } else {
        b.take(20)
    }
}

/// A DAO's address: `0x` and the hexadecimal text of its name's prefix.
pub open spec fn dao_address_of(name: Seq<char>) -> Seq<char> {
    seq!['0', 'x'] + hex_lower(name_prefix(name))
}

/// The parameter that a key names.
pub open spec fn parameter_named(key: Seq<char>) -> Option<GovernanceParameter> {
    if key == "voting_delay"@ {
        Some(GovernanceParameter::VotingDelay)
    } else if key == "voting_period"@ {
        Some(GovernanceParameter::VotingPeriod)
    } else if key == "proposal_threshold"@ {
        Some(GovernanceParameter::ProposalThreshold)
    } else if key == "quorum_votes"@ {
        Some(GovernanceParameter::QuorumVotes)
    } else if key == "timelock_delay"@ {
        Some(GovernanceParameter::TimelockDelay)
    } else {
        None
    }
}

/// A configuration with one parameter set.
pub open spec fn config_with(c: GovernanceConfig, p: GovernanceParameter, v: u64) -> GovernanceConfig {
    match p {
        GovernanceParameter::VotingDelay => GovernanceConfig { voting_delay: v, ..c },
        GovernanceParameter::VotingPeriod => GovernanceConfig { voting_period: v, ..c },
        GovernanceParameter::ProposalThreshold => GovernanceConfig { proposal_threshold: v, ..c },
        GovernanceParameter::QuorumVotes => GovernanceConfig { quorum_votes: v, ..c },
        GovernanceParameter::TimelockDelay => GovernanceConfig { timelock_delay: v, ..c },
    }
}

/// The configuration after setting the parameter `key` to the decimal text
/// `value`: an unknown key, or a value that is no `u64`, is an error.
pub open spec fn updated_config(c: GovernanceConfig, key: Seq<char>, value: Seq<char>) -> Result<
    GovernanceConfig,
    GovernanceError,
> {
    match parameter_named(key) {
        None => Err(GovernanceError::UnknownParameter),
        Some(p) => match parse_u64_spec(value) {
            None => Err(GovernanceError::InvalidParameterValue { parameter: p }),
            Some(v) => Ok(config_with(c, p, v)),
        },
    }
}

/// A member that joined at `now` with `tokens` voting power.
pub open spec fn new_member(address: Seq<char>, tokens: u64, now: u64) -> MemberView {
    MemberView { address, joined_at: now, voting_power: tokens, is_active: true }
}

/// The configuration and members after one action, or its error. Fund
/// transfers and contract upgrades change neither.
pub open spec fn applied_action(
    c: GovernanceConfig,
    m: Map<Seq<char>, MemberView>,
    a: ActionView,
    now: u64,
) -> Result<(GovernanceConfig, Map<Seq<char>, MemberView>), GovernanceError> {
    match a {
        ActionView::UpdateParameter { key, value } => match updated_config(c, key, value) {
            Ok(c2) => Ok((c2, m)),
            Err(e) => Err(e),
        },
        ActionView::AddMember { address, tokens } => if m.contains_key(address) {
            Err(GovernanceError::MemberAlreadyExists)
        } else {
            Ok((c, m.insert(address, new_member(address, tokens, now))))
        },
        _ => Ok((c, m)),
    }
}

/// What creating a proposal at clock reading `now` makes of `pre`,
/// returning `r`: a creator below the proposal threshold is refused and
/// nothing changes; otherwise a pending proposal with the next id and the
/// given content is stored and an empty voting session opened for it.
pub open spec fn dao_create_outcome(pre: DAO, post: DAO, creator: Seq<char>, title: Seq<char>, description: Seq<char>, actions: Seq<ProposalAction>, now: u64, r: Result<u64, GovernanceError>) -> bool {
    &&& pre.spec_voting_power(creator) < pre.spec_config().proposal_threshold ==> r == Err::<
        u64,
        GovernanceError
    >(
        GovernanceError::InsufficientVotingPower {
            voting_power: pre.spec_voting_power(creator),
            threshold: pre.spec_config().proposal_threshold,
        }
    ) && post == pre
    &&& pre.spec_voting_power(creator) >= pre.spec_config().proposal_threshold ==> {
        &&& r == Ok::<u64, GovernanceError>(pre.spec_next_id())
        &&& post.spec_next_id() == pre.spec_next_id() + 1
        &&& post.spec_proposals() == pre.spec_proposals().insert(
            pre.spec_next_id(),
            ProposalView {
                id: pre.spec_next_id(),
                creator: creator,
                title: title,
                description: description,
                actions: action_views(actions),
                created_at: now,
                status: ProposalStatus::Pending,
                executed_at: None,
            },
        )
        &&& post.spec_sessions() == pre.spec_sessions().insert(
            pre.spec_next_id(),
            empty_session(pre.spec_next_id()),
        )
        &&& post.spec_voting_system().spec_address() == pre.spec_voting_system().spec_address()
        &&& same_but_proposals_and_votes(post, pre)
    }
}

/// What a vote by `voter` on `proposal_id` at clock reading `now` makes of
/// `pre`, returning `r`: a voter without tokens is refused and nothing
/// changes; a missing session or a repeated voter is refused and the
/// sessions stay; otherwise the vote is added, weighted by the voter's
/// tokens, to the tally of its side.
pub open spec fn dao_vote_outcome(pre: DAO, post: DAO, proposal_id: u64, voter: Seq<char>, support: bool, now: u64, r: Result<bool, GovernanceError>) -> bool {
    &&& pre.spec_voting_power(voter) == 0 ==> r == Err::<bool, GovernanceError>(
        GovernanceError::NoVotingPower
    ) && post == pre
    &&& pre.spec_voting_power(voter) > 0 && !pre.spec_sessions().contains_key(proposal_id) ==> r
        == Err::<bool, GovernanceError>(GovernanceError::SessionNotFound) && post.spec_sessions()
        == pre.spec_sessions()
    &&& pre.spec_voting_power(voter) > 0 && pre.spec_sessions().contains_key(proposal_id)
        && keyed_map(pre.spec_sessions()[proposal_id].votes, vote_key()).contains_key(voter) ==> r
        == Err::<bool, GovernanceError>(GovernanceError::AlreadyVoted) && post.spec_sessions()
        == pre.spec_sessions()
    &&& pre.spec_voting_power(voter) > 0 && pre.spec_sessions().contains_key(proposal_id)
        && !keyed_map(pre.spec_sessions()[proposal_id].votes, vote_key()).contains_key(voter) ==> r
        == Ok::<bool, GovernanceError>(true) && post.spec_sessions() == pre.spec_sessions().insert(
        proposal_id,
        session_after_vote(
            pre.spec_sessions()[proposal_id],
            voter,
            support,
            pre.spec_voting_power(voter),
            now,
        )
    )
    &&& post.spec_proposal_manager() == pre.spec_proposal_manager()
    &&& same_but_proposals_and_votes(post, pre)
}

/// What adding the member `addr` at clock reading `now` makes of `pre`,
/// returning `r`: an existing member is refused; otherwise an active member
/// joined at `now` with `initial_tokens` as its voting power is appended.
pub open spec fn member_added_outcome(pre: DAO, post: DAO, addr: Seq<char>, initial_tokens: u64, now: u64, r: Result<(), GovernanceError>) -> bool {
    &&& same_but_members_and_config(post, pre)
    &&& post.spec_config() == pre.spec_config()
    &&& pre.spec_members().contains_key(addr) ==> r == Err::<(), GovernanceError>(
        GovernanceError::MemberAlreadyExists
    ) && post.spec_member_list() == pre.spec_member_list()
    &&& !pre.spec_members().contains_key(addr) ==> r is Ok && post.spec_member_list()
        == pre.spec_member_list().push(new_member(addr, initial_tokens, now))
        && post.spec_members() == pre.spec_members().insert(
        addr,
        new_member(addr, initial_tokens, now)
    )
}

/// The configuration and members after the actions in order, up to the
/// first that fails, and that action's error.
pub open spec fn applied_actions(
    c: GovernanceConfig,
    m: Map<Seq<char>, MemberView>,
    actions: Seq<ActionView>,
    now: u64,
) -> (GovernanceConfig, Map<Seq<char>, MemberView>, Option<GovernanceError>)
    decreases actions.len(),
{
    if actions.len() == 0 {
        (c, m, None)
    } else {
        match applied_action(c, m, actions[0], now) {
            Err(e) => (c, m, Some(e)),
            Ok(cm) => applied_actions(cm.0, cm.1, actions.drop_first(), now),
        }
    }
}

#[derive(Debug, Clone)]
pub struct DAO {
    address: Address,
    name: String,
    token: GovernanceToken,
    voting_system: VotingSystem,
    treasury: Treasury,
    proposal_manager: ProposalManager,
    members: Vec<Member>,
    config: GovernanceConfig,
}

/// Everything of two DAOs but their members and configuration is equal.
pub open spec fn same_but_members_and_config(a: DAO, b: DAO) -> bool {
    &&& a.spec_address() == b.spec_address()
    &&& a.spec_name() == b.spec_name()
    &&& a.spec_token() == b.spec_token()
    &&& a.spec_voting_system() == b.spec_voting_system()
    &&& a.spec_treasury() == b.spec_treasury()
    &&& a.spec_proposal_manager() == b.spec_proposal_manager()
}

/// Everything of two DAOs but their proposals and voting sessions is equal.
pub open spec fn same_but_proposals_and_votes(a: DAO, b: DAO) -> bool {
    &&& a.spec_address() == b.spec_address()
    &&& a.spec_name() == b.spec_name()
    &&& a.spec_token() == b.spec_token()
    &&& a.spec_treasury() == b.spec_treasury()
    &&& a.spec_member_list() == b.spec_member_list()
    &&& a.spec_config() == b.spec_config()
}

/// The outcome of executing proposal `proposal_id` of `a`, which exists
/// and is succeeded or active, at clock reading `now`, giving `b` and `r`:
/// its actions applied in order up to the first that fails, and the
/// proposal marked executed where none failed.
pub open spec fn executed_as(a: DAO, b: DAO, r: Result<bool, GovernanceError>, proposal_id: u64, now: u64) -> bool {
    let out = applied_actions(a.spec_config(), a.spec_members(), a.spec_proposals()[proposal_id].actions, now);
    &&& b.spec_config() == out.0
    &&& b.spec_members() == out.1
    &&& match out.2 {
        Some(e) => r == Err::<bool, GovernanceError>(e) && b.spec_proposals() == a.spec_proposals(),
        None => r == Ok::<bool, GovernanceError>(true) && b.spec_proposals() == a.spec_proposals().insert(
            proposal_id,
            ProposalView { status: ProposalStatus::Executed, executed_at: Some(now), ..a.spec_proposals()[proposal_id] },
        ),
    }
}

/// Whether a proposal's status allows its execution.
pub open spec fn executable_status(s: ProposalStatus) -> bool {
    s == ProposalStatus::Succeeded || s == ProposalStatus::Active
}

impl DAO {
    pub closed spec fn spec_address(&self) -> Seq<char> {
        self.address@
    }

    pub closed spec fn spec_name(&self) -> Seq<char> {
        self.name@
    }

    pub closed spec fn spec_token(&self) -> GovernanceToken {
        self.token
    }

    pub closed spec fn spec_voting_system(&self) -> VotingSystem {
        self.voting_system
    }

    pub closed spec fn spec_treasury(&self) -> Treasury {
        self.treasury
    }

    pub closed spec fn spec_proposal_manager(&self) -> ProposalManager {
        self.proposal_manager
    }

    /// The members in the order they joined.
    pub closed spec fn spec_member_list(&self) -> Seq<MemberView> {
        self.members@.map_values(|m: Member| m@)
    }

    pub closed spec fn spec_config(&self) -> GovernanceConfig {
        self.config
    }

    /// The members by address.
    pub open spec fn spec_members(&self) -> Map<Seq<char>, MemberView> {
        keyed_map(self.spec_member_list(), member_key())
    }

    /// The voting power of an address: its token balance.
    pub open spec fn spec_voting_power(&self, a: Seq<char>) -> u64 {
        self.spec_token().spec_balance(a)
    }

    /// The proposals by id.
    pub open spec fn spec_proposals(&self) -> Map<u64, ProposalView> {
        self.spec_proposal_manager().spec_map()
    }

    /// The id of the next proposal.
    pub open spec fn spec_next_id(&self) -> u64 {
        self.spec_proposal_manager().spec_next_id()
    }

    /// The voting sessions by proposal.
    pub open spec fn spec_sessions(&self) -> Map<u64, SessionView> {
        self.spec_voting_system().spec_sessions()
    }

    /// The parts are well formed, members are unique, and every voting
    /// session belongs to an id that was handed out.
    pub closed spec fn wf(&self) -> bool {
        &&& self.token.wf()
        &&& self.voting_system.wf()
        &&& self.treasury.wf()
        &&& self.proposal_manager.wf()
        &&& keys_distinct(self.spec_member_list(), member_key())
        &&& forall|pid: u64| #[trigger] self.spec_sessions().contains_key(pid) ==> pid < self.spec_next_id()
    }

    /// Well-formedness carries over to a DAO with the same token, voting
    /// sessions, treasury and proposals, and unique members.
    proof fn lemma_wf_carries(a: DAO, b: DAO)
        requires
            a.wf(),
            b.token == a.token,
            b.voting_system == a.voting_system,
            b.treasury == a.treasury,
            b.proposal_manager == a.proposal_manager,
            keys_distinct(b.spec_member_list(), member_key()),
        ensures
            b.wf(),
    {
        assert forall|pid: u64| #[trigger] b.spec_sessions().contains_key(pid) implies pid < b.spec_next_id() by {
            assert(a.spec_sessions().contains_key(pid));
        }
    }

    /// A DAO named `name` whose token's whole supply is held by the DAO's
    /// own address.
    pub fn new(
        name: String,
        token_name: String,
        token_symbol: String,
        initial_supply: u64,
        config: GovernanceConfig,
    ) -> (r: Result<DAO, GovernanceError>)
        ensures
            r matches Ok(d) && {
                &&& d.wf()
                &&& d.spec_address() == dao_address_of(name@)
                &&& d.spec_name() == name@
                &&& d.spec_config() == config
                &&& d.spec_token().spec_total_supply() == initial_supply
                &&& d.spec_token().spec_name() == token_name@
                &&& d.spec_token().spec_symbol() == token_symbol@
                &&& d.spec_token().spec_decimals() == 18
                &&& d.spec_voting_power(d.spec_address()) == initial_supply
                &&& (forall|h: Seq<char>| h != d.spec_address() ==> d.spec_voting_power(h) == 0)
                &&& d.spec_member_list().len() == 0
                &&& d.spec_proposals() == Map::<u64, ProposalView>::empty()
                &&& d.spec_next_id() == 1
                &&& d.spec_sessions() == Map::<u64, SessionView>::empty()
                &&& d.spec_voting_system().spec_address() == d.spec_address()
                &&& d.spec_treasury().spec_address() == d.spec_address()
                &&& d.spec_treasury().spec_total() == 0
            },
    {
        let bytes = name.as_str().as_bytes();
        let n: usize = if bytes.len() < 20 { bytes.len() } else { 20 };
        let mut prefix: Vec<u8> = Vec::new();
        let mut i: usize = 0;
        while i < n
            invariant
                0 <= i <= n <= bytes@.len(),
                prefix@ == bytes@.take(i as int),
            decreases n - i,
        {
            prefix.push(bytes[i]);
            proof {
                assert(prefix@ =~= bytes@.take(i + 1));
            }
            i = i + 1;
        }
        proof {
            assert(bytes@ == vstd::utf8::encode_utf8(name@));
            if bytes@.len() < 20 {
                assert(bytes@.take(n as int) =~= bytes@);
            }
            assert(prefix@ == name_prefix(name@));
        }
        let mut text = String::from_str("0x");
        let hex = hex_encode(prefix.as_slice());
        text.append(hex.as_str());
        proof {
            reveal_strlit("0x");
            assert(text@ =~= dao_address_of(name@));
        }
        let address = Address::new(text);
        let token = GovernanceToken::new(token_name, token_symbol, 18, initial_supply, address.duplicate());
        let voting_system = VotingSystem::new(address.duplicate());
        let treasury = match Treasury::new(address.duplicate()) {
            Ok(t) => t,
            Err(e) => return Err(e),
        };
        let proposal_manager = ProposalManager::new();
        let d = DAO {
            address,
            name,
            token,
            voting_system,
            treasury,
            proposal_manager,
            members: Vec::new(),
            config,
        };
        proof {
            assert(d.spec_member_list() =~= Seq::<MemberView>::empty());
        }
        Ok(d)
    }

    /// The DAO's address.
    pub fn address(&self) -> (r: &Address)
        ensures
            r@ == self.spec_address(),
    {
        &self.address
    }

    /// The DAO's name.
    pub fn name(&self) -> (r: &String)
        ensures
            r@ == self.spec_name(),
    {
        &self.name
    }

    /// The governance configuration.
    pub fn config(&self) -> (r: GovernanceConfig)
        ensures
            r == self.spec_config(),
    {
        self.config
    }

    /// The governance token.
    pub fn token(&self) -> (r: &GovernanceToken)
        ensures
            *r == self.spec_token(),
    {
        &self.token
    }

    /// The voting sessions.
    pub fn voting_system(&self) -> (r: &VotingSystem)
        ensures
            *r == self.spec_voting_system(),
    {
        &self.voting_system
    }

    /// The treasury.
    pub fn treasury(&self) -> (r: &Treasury)
        ensures
            *r == self.spec_treasury(),
    {
        &self.treasury
    }

    /// The proposals.
    pub fn proposal_manager(&self) -> (r: &ProposalManager)
        ensures
            *r == self.spec_proposal_manager(),
    {
        &self.proposal_manager
    }

    /// Position of the member with an address.
    fn find_member(&self, address: &Address) -> (r: Option<usize>)
        requires
            keys_distinct(self.spec_member_list(), member_key()),
        ensures
            match r {
                Some(i) => i < self.members@.len() && self.spec_member_list()[i as int].address == address@
                    && self.spec_members().contains_key(address@)
                    && self.spec_members()[address@] == self.spec_member_list()[i as int],
                None => !self.spec_members().contains_key(address@),
            },
    {
        let mut i: usize = 0;
        while i < self.members.len()
            invariant
                0 <= i <= self.members@.len(),
                keys_distinct(self.spec_member_list(), member_key()),
                forall|j: int| 0 <= j < i ==> (#[trigger] self.members@[j]).address@ != address@,
            decreases self.members@.len() - i,
        {
            if self.members[i].address.same_as(address) {
                proof {
                    lemma_keyed_map_index(self.spec_member_list(), member_key(), i as int);
                }
                return Some(i);
            }
            i = i + 1;
        }
        proof {
            assert forall|j: int| 0 <= j < self.spec_member_list().len() implies (member_key())(
                self.spec_member_list()[j],
            ) != address@ by {
                assert(self.spec_member_list()[j] == self.members@[j]@);
            }
            lemma_keyed_map_absent(self.spec_member_list(), member_key(), address@);
        }
        None
    }

    /// Creates a proposal at clock reading `now` and opens its voting
    /// session; the creator needs at least the proposal threshold in tokens.
    pub fn create_proposal_at(
        &mut self,
        creator: &Address,
        title: String,
        description: String,
        actions: Vec<ProposalAction>,
        now: u64,
    ) -> (r: Result<u64, GovernanceError>)
        requires
            old(self).wf(),
            old(self).spec_next_id() < u64::MAX,
        ensures
            final(self).wf(),
            dao_create_outcome(*old(self), *final(self), creator@, title@, description@, actions@, now, r),
    {
        let voting_power = self.token.balance_of(creator);
        if voting_power < self.config.proposal_threshold {
            return Err(
                GovernanceError::InsufficientVotingPower {
                    voting_power,
                    threshold: self.config.proposal_threshold,
                },
            );
        }
        let ghost old_sessions = self.spec_sessions();
        let id = match self.proposal_manager.create_proposal_at(creator, title, description, actions, now) {
            Ok(id) => id,
            Err(e) => return Err(e),
        };
        proof {
            assert(!old_sessions.contains_key(id));
        }
        match self.voting_system.initialize_voting_session(id) {
            Ok(()) => {},
            Err(e) => return Err(e),
        }
        proof {
            assert forall|pid: u64| #[trigger] self.spec_sessions().contains_key(pid) implies pid
                < self.spec_next_id() by {
                if pid != id {
                    assert(old_sessions.contains_key(pid));
                }
            }
        }
        Ok(id)
    }

    /// Creates a proposal now and opens its voting session.
    pub fn create_proposal(
        &mut self,
        creator: &Address,
        title: String,
        description: String,
        actions: Vec<ProposalAction>,
    ) -> (r: Result<u64, GovernanceError>)
        requires
            old(self).wf(),
            old(self).spec_next_id() < u64::MAX,
        ensures
            final(self).wf(),
            exists|now: u64| #[trigger] dao_create_outcome(
                *old(self),
                *final(self),
                creator@,
                title@,
                description@,
                actions@,
                now,
                r,
            ),
    {
        let now = now_millis();
        let ghost (t, d, a) = (title@, description@, actions@);
        let r = self.create_proposal_at(creator, title, description, actions, now);
        assert(dao_create_outcome(*old(self), *self, creator@, t, d, a, now, r));
        r
    }

    /// Records a vote at clock reading `now`, weighted by the voter's tokens.
    pub fn vote_on_proposal_at(&mut self, proposal_id: u64, voter: &Address, support: bool, now: u64) -> (r: Result<
        bool,
        GovernanceError,
    >)
        requires
            old(self).wf(),
            old(self).spec_sessions().contains_key(proposal_id) ==> {
                let s = old(self).spec_sessions()[proposal_id];
                let p = old(self).spec_voting_power(voter@);
                if support { s.total_for + p <= u64::MAX } else { s.total_against + p <= u64::MAX }
            },
        ensures
            final(self).wf(),
            dao_vote_outcome(*old(self), *final(self), proposal_id, voter@, support, now, r),
    {
        let voting_power = self.token.balance_of(voter);
        if voting_power == 0 {
            return Err(GovernanceError::NoVotingPower);
        }
        let ghost old_sessions = self.spec_sessions();
        match self.voting_system.record_vote_at(proposal_id, voter, support, voting_power, now) {
            Ok(()) => {},
            Err(e) => return Err(e),
        }
        proof {
            assert forall|pid: u64| #[trigger] self.spec_sessions().contains_key(pid) implies pid
                < self.spec_next_id() by {
                assert(old_sessions.contains_key(pid));
            }
        }
        Ok(true)
    }

    /// Records a vote now, weighted by the voter's tokens.
    pub fn vote_on_proposal(&mut self, proposal_id: u64, voter: &Address, support: bool) -> (r: Result<
        bool,
        GovernanceError,
    >)
        requires
            old(self).wf(),
            old(self).spec_sessions().contains_key(proposal_id) ==> {
                let s = old(self).spec_sessions()[proposal_id];
                let p = old(self).spec_voting_power(voter@);
                if support { s.total_for + p <= u64::MAX } else { s.total_against + p <= u64::MAX }
            },
        ensures
            final(self).wf(),
            exists|now: u64| #[trigger] dao_vote_outcome(*old(self), *final(self), proposal_id, voter@, support, now, r),
    {
        let now = now_millis();
        let r = self.vote_on_proposal_at(proposal_id, voter, support, now);
        assert(dao_vote_outcome(*old(self), *self, proposal_id, voter@, support, now, r));
        r
    }

    /// Sets a governance parameter from its key and decimal text.
    fn update_governance_parameter(&mut self, key: &str, value_str: String) -> (r: Result<(), GovernanceError>)
        requires
            old(self).wf(),
        ensures
            final(self).wf(),
            same_but_members_and_config(*final(self), *old(self)),
            final(self).spec_member_list() == old(self).spec_member_list(),
            match updated_config(old(self).spec_config(), key@, value_str@) {
                Ok(c) => r is Ok && final(self).spec_config() == c,
                Err(e) => r == Err::<(), GovernanceError>(e) && final(self).spec_config() == old(self).spec_config(),
            },
    {
        let parameter = if str_equal(key, "voting_delay") {
            GovernanceParameter::VotingDelay
        } else if str_equal(key, "voting_period") {
            GovernanceParameter::VotingPeriod
        } else if str_equal(key, "proposal_threshold") {
            GovernanceParameter::ProposalThreshold
        } else if str_equal(key, "quorum_votes") {
            GovernanceParameter::QuorumVotes
        } else if str_equal(key, "timelock_delay") {
            GovernanceParameter::TimelockDelay
        } else {
            return Err(GovernanceError::UnknownParameter);
        };
        let value = match parse_u64(value_str.as_str()) {
            Some(v) => v,
            None => return Err(GovernanceError::InvalidParameterValue { parameter }),
        };
        match parameter {
            GovernanceParameter::VotingDelay => self.config.voting_delay = value,
            GovernanceParameter::VotingPeriod => self.config.voting_period = value,
            GovernanceParameter::ProposalThreshold => self.config.proposal_threshold = value,
            GovernanceParameter::QuorumVotes => self.config.quorum_votes = value,
            GovernanceParameter::TimelockDelay => self.config.timelock_delay = value,
        }
        proof {
            Self::lemma_wf_carries(*old(self), *self);
        }
        Ok(())
    }

    /// Adds an active member at clock reading `now`, with `initial_tokens`
    /// as its recorded voting power.
    pub fn _internal_add_member_at(&mut self, new_member_addr: Address, initial_tokens: u64, now: u64) -> (r: Result<
        (),
        GovernanceError,
    >)
        requires
            old(self).wf(),
        ensures
            final(self).wf(),
            member_added_outcome(*old(self), *final(self), new_member_addr@, initial_tokens, now, r),
    {
        if self.find_member(&new_member_addr).is_some() {
            return Err(GovernanceError::MemberAlreadyExists);
        }
        let m = Member { address: new_member_addr, joined_at: now, voting_power: initial_tokens, is_active: true };
        let ghost mv = m@;
        proof {
            lemma_keys_distinct_push(self.spec_member_list(), member_key(), mv);
        }
        self.members.push(m);
        proof {
            assert(self.spec_member_list() =~= old(self).spec_member_list().push(mv));
            assert(self.spec_member_list().drop_last() =~= old(self).spec_member_list());
            Self::lemma_wf_carries(*old(self), *self);
        }
        Ok(())
    }

    /// Adds an active member now.
    pub fn _internal_add_member(&mut self, new_member_addr: Address, initial_tokens: u64) -> (r: Result<
        (),
        GovernanceError,
    >)
        requires
            old(self).wf(),
        ensures
            final(self).wf(),
            exists|now: u64| #[trigger] member_added_outcome(*old(self), *final(self), new_member_addr@, initial_tokens, now, r),
    {
        let now = now_millis();
        let ghost a = new_member_addr@;
        let r = self._internal_add_member_at(new_member_addr, initial_tokens, now);
        assert(member_added_outcome(*old(self), *self, a, initial_tokens, now, r));
        r
    }

    /// Deactivates a member and clears its voting power.
    pub fn _internal_remove_member(&mut self, member_address: &Address) -> (r: Result<(), GovernanceError>)
        requires
            old(self).wf(),
        ensures
            final(self).wf(),
            same_but_members_and_config(*final(self), *old(self)),
            final(self).spec_config() == old(self).spec_config(),
            !old(self).spec_members().contains_key(member_address@) ==> r == Err::<(), GovernanceError>(
                GovernanceError::MemberNotFound,
            ) && final(self).spec_member_list() == old(self).spec_member_list(),
            old(self).spec_members().contains_key(member_address@) ==> r is Ok && final(self).spec_members()
                == old(self).spec_members().insert(
                member_address@,
                MemberView { is_active: false, voting_power: 0, ..old(self).spec_members()[member_address@] },
            ) && final(self).spec_member_list().len() == old(self).spec_member_list().len(),
    {
        match self.find_member(member_address) {
            None => Err(GovernanceError::MemberNotFound),
            Some(i) => {
                let ghost before = self.spec_member_list();
                self.members[i].is_active = false;
                self.members[i].voting_power = 0;
                proof {
                    let mv = MemberView { is_active: false, voting_power: 0, ..before[i as int] };
                    assert(self.spec_member_list() =~= before.update(i as int, mv));
                    lemma_keyed_map_update(before, member_key(), i as int, mv);
                    Self::lemma_wf_carries(*old(self), *self);
                }
                Ok(())
            },
        }
    }

    /// Applies the actions of a proposal in order at clock reading `now`,
    /// stopping at the first that fails. An unknown proposal has nothing to
    /// apply.
    fn execute_proposal_actions(&mut self, proposal_id: u64, now: u64) -> (r: Result<(), GovernanceError>)
        requires
            old(self).wf(),
        ensures
            final(self).wf(),
            same_but_members_and_config(*final(self), *old(self)),
            !old(self).spec_proposals().contains_key(proposal_id) ==> r is Ok && *final(self) == *old(self),
            old(self).spec_proposals().contains_key(proposal_id) ==> ({
                let out = applied_actions(
                    old(self).spec_config(),
                    old(self).spec_members(),
                    old(self).spec_proposals()[proposal_id].actions,
                    now,
                );
                &&& final(self).spec_config() == out.0
                &&& final(self).spec_members() == out.1
                &&& match out.2 {
                    Some(e) => r == Err::<(), GovernanceError>(e),
                    None => r is Ok,
                }
            }),
    {
        let actions = match self.proposal_manager.get_proposal_actions(proposal_id) {
            Ok(Some(a)) => a,
            Ok(None) => return Ok(()),
            Err(e) => return Err(e),
        };
        let ghost av = action_views(actions@);
        let ghost target = applied_actions(self.spec_config(), self.spec_members(), av, now);
        proof {
            assert(av.subrange(0, av.len() as int) =~= av);
        }
        let mut i: usize = 0;
        while i < actions.len()
            invariant
                0 <= i <= actions@.len(),
                av == action_views(actions@),
                old(self).spec_proposals().contains_key(proposal_id),
                self.wf(),
                same_but_members_and_config(*self, *old(self)),
                applied_actions(self.spec_config(), self.spec_members(), av.subrange(i as int, av.len() as int), now)
                    == target,
                target == applied_actions(
                    old(self).spec_config(),
                    old(self).spec_members(),
                    old(self).spec_proposals()[proposal_id].actions,
                    now,
                ),
            decreases actions@.len() - i,
        {
            let ghost rest = av.subrange(i as int, av.len() as int);
            proof {
                assert(rest[0] == actions@[i as int]@);
                assert(rest.drop_first() =~= av.subrange(i + 1, av.len() as int));
            }
            match &actions[i] {
                ProposalAction::UpdateParameter { key, value } => {
                    match self.update_governance_parameter(key.as_str(), value.clone()) {
                        Ok(()) => {},
                        Err(e) => return Err(e),
                    }
                },
                ProposalAction::AddMember { address, tokens } => {
                    match self._internal_add_member_at(address.duplicate(), *tokens, now) {
                        Ok(()) => {},
                        Err(e) => return Err(e),
                    }
                },
                _ => {},
            }
            i = i + 1;
        }
        proof {
            assert(av.subrange(av.len() as int, av.len() as int) =~= Seq::<ActionView>::empty());
        }
        Ok(())
    }

    /// Executes a succeeded or active proposal at clock reading `now`: its
    /// actions are applied in order and it is marked executed. An action
    /// that fails ends the execution with its error; the actions before it
    /// stay applied and the proposal is not marked.
    pub fn execute_proposal_at(&mut self, proposal_id: u64, _executor: &Address, now: u64) -> (r: Result<
        bool,
        GovernanceError,
    >)
        requires
            old(self).wf(),
        ensures
            final(self).wf(),
            final(self).spec_address() == old(self).spec_address(),
            final(self).spec_name() == old(self).spec_name(),
            final(self).spec_token() == old(self).spec_token(),
            final(self).spec_voting_system() == old(self).spec_voting_system(),
            final(self).spec_treasury() == old(self).spec_treasury(),
            final(self).spec_next_id() == old(self).spec_next_id(),
            !old(self).spec_proposals().contains_key(proposal_id) ==> r == Err::<bool, GovernanceError>(
                GovernanceError::ProposalNotFound,
            ) && *final(self) == *old(self),
            old(self).spec_proposals().contains_key(proposal_id) && !executable_status(
                old(self).spec_proposals()[proposal_id].status,
            ) ==> r == Err::<bool, GovernanceError>(
                GovernanceError::CannotExecute { status: old(self).spec_proposals()[proposal_id].status },
            ) && *final(self) == *old(self),
            old(self).spec_proposals().contains_key(proposal_id) && executable_status(
                old(self).spec_proposals()[proposal_id].status,
            ) ==> executed_as(*old(self), *final(self), r, proposal_id, now),
    {
        let status = match self.proposal_manager.get_proposal_status(proposal_id) {
            Ok(Some(s)) => s,
            Ok(None) => return Err(GovernanceError::ProposalNotFound),
            Err(e) => return Err(e),
        };
        match status {
            ProposalStatus::Succeeded | ProposalStatus::Active => {},
            _ => return Err(GovernanceError::CannotExecute { status }),
        }
        match self.execute_proposal_actions(proposal_id, now) {
            Ok(()) => {},
            Err(e) => return Err(e),
        }
        let ghost sessions = self.spec_sessions();
        match self.proposal_manager.mark_executed_at(proposal_id, now) {
            Ok(()) => {},
            Err(e) => return Err(e),
        }
        proof {
            assert forall|pid: u64| #[trigger] self.spec_sessions().contains_key(pid) implies pid
                < self.spec_next_id() by {
                assert(sessions.contains_key(pid));
            }
        }
        Ok(true)
    }

    /// Executes a succeeded or active proposal now.
    pub fn execute_proposal(&mut self, proposal_id: u64, executor: &Address) -> (r: Result<bool, GovernanceError>)
        requires
            old(self).wf(),
        ensures
            final(self).wf(),
            final(self).spec_address() == old(self).spec_address(),
            final(self).spec_name() == old(self).spec_name(),
            final(self).spec_next_id() == old(self).spec_next_id(),
            final(self).spec_token() == old(self).spec_token(),
            final(self).spec_voting_system() == old(self).spec_voting_system(),
            final(self).spec_treasury() == old(self).spec_treasury(),
            !old(self).spec_proposals().contains_key(proposal_id) ==> r == Err::<bool, GovernanceError>(
                GovernanceError::ProposalNotFound,
            ) && *final(self) == *old(self),
            old(self).spec_proposals().contains_key(proposal_id) && !executable_status(
                old(self).spec_proposals()[proposal_id].status,
            ) ==> r == Err::<bool, GovernanceError>(
                GovernanceError::CannotExecute { status: old(self).spec_proposals()[proposal_id].status },
            ) && *final(self) == *old(self),
            old(self).spec_proposals().contains_key(proposal_id) && executable_status(
                old(self).spec_proposals()[proposal_id].status,
            ) ==> exists|now: u64| executed_as(*old(self), *final(self), r, proposal_id, now),
    {
        let now = now_millis();
        let r = self.execute_proposal_at(proposal_id, executor, now);
        proof {
            if old(self).spec_proposals().contains_key(proposal_id) && executable_status(
                old(self).spec_proposals()[proposal_id].status,
            ) {
                assert(executed_as(*old(self), *self, r, proposal_id, now));
            }
        }
        r
    }

    /// The status of a proposal.
    pub fn get_proposal_status(&self, proposal_id: u64) -> (r: Result<Option<ProposalStatus>, GovernanceError>)
        requires
            self.wf(),
        ensures
            r == Ok::<Option<ProposalStatus>, GovernanceError>(
                if self.spec_proposals().contains_key(proposal_id) {
                    Some(self.spec_proposals()[proposal_id].status)
                } else {
                    None
                },
            ),
    {
        self.proposal_manager.get_proposal_status(proposal_id)
    }

    /// The member with an address.
    pub fn get_member_info(&self, address: &Address) -> (r: Option<&Member>)
        requires
            self.wf(),
        ensures
            match r {
                Some(m) => self.spec_members().contains_key(address@) && m@ == self.spec_members()[address@],
                None => !self.spec_members().contains_key(address@),
            },
    {
        match self.find_member(address) {
            Some(i) => Some(&self.members[i]),
            None => None,
        }
    }

    /// The number of members, active or not.
    pub fn get_total_members(&self) -> (r: usize)
        requires
            self.wf(),
        ensures
            r == self.spec_members().dom().len(),
            r == self.spec_member_list().len(),
    {
        proof {
            lemma_keyed_map_len(self.spec_member_list(), member_key());
        }
        self.members.len()
    }

    /// The active members, in the order they joined.
    pub fn get_active_members(&self) -> (r: Vec<&Member>)
        ensures
            r@.map_values(|m: &Member| m@) == self.spec_member_list().filter(|m: MemberView| m.is_active),
    {
        let ghost pred = |m: MemberView| m.is_active;
        let mut out: Vec<&Member> = Vec::new();
        let mut i: usize = 0;
        while i < self.members.len()
            invariant
                0 <= i <= self.members@.len(),
                forall|m: MemberView| #[trigger] pred(m) == m.is_active,
                out@.map_values(|m: &Member| m@) == self.spec_member_list().take(i as int).filter(pred),
            decreases self.members@.len() - i,
        {
            let ghost before = out@;
            proof {
                reveal_with_fuel(Seq::filter, 1);
                assert(self.spec_member_list().take(i + 1).drop_last() =~= self.spec_member_list().take(i as int));
                assert(self.spec_member_list()[i as int] == self.members@[i as int]@);
            }
            if self.members[i].is_active {
                out.push(&self.members[i]);
                assert(out@.map_values(|m: &Member| m@) =~= before.map_values(|m: &Member| m@).push(
                    self.members@[i as int]@,
                ));
            }
            i = i + 1;
        }
        assert(self.spec_member_list().take(self.members@.len() as int) =~= self.spec_member_list());
        out
    }

    /// The voting power of an address: its token balance.
    pub fn get_member_voting_power(&self, address: &Address) -> (r: Result<u64, GovernanceError>)
        requires
            self.wf(),
        ensures
            r == Ok::<u64, GovernanceError>(self.spec_voting_power(address@)),
    {
        Ok(self.token.balance_of(address))
    }

    /// A summary of the DAO. The treasury balance is reported as zero.
    pub fn get_dao_info(&self) -> (r: Result<DAOInfo, GovernanceError>)
        requires
            self.wf(),
        ensures
            r matches Ok(info) && {
                &&& info.address@ == self.spec_address()
                &&& info.name@ == self.spec_name()
                &&& info.total_members == self.spec_member_list().len()
                &&& info.active_members == self.spec_member_list().filter(|m: MemberView| m.is_active).len()
                &&& info.total_supply == self.spec_token().spec_total_supply()
                &&& info.proposal_threshold == self.spec_config().proposal_threshold
                &&& info.treasury_balance == 0
            },
    {
        let active = self.get_active_members();
        proof {
            assert(active@.map_values(|m: &Member| m@).len() == active@.len());
        }
        Ok(
            DAOInfo {
                address: self.address.duplicate(),
                name: self.name.clone(),
                total_members: self.get_total_members(),
                active_members: active.len(),
                total_supply: self.token.total_supply(),
                proposal_threshold: self.config.proposal_threshold,
                treasury_balance: 0,
            },
        )
    }

    /// The totals for and against a proposal and its number of voters.
    pub fn get_voting_results(&self, proposal_id: u64) -> (r: Option<(u64, u64, usize)>)
        requires
            self.wf(),
        ensures
            r == if self.spec_sessions().contains_key(proposal_id) {
                let s = self.spec_sessions()[proposal_id];
                Some((s.total_for, s.total_against, s.total_voters))
            } else {
                None
            },
    {
        self.voting_system.get_voting_results(proposal_id)
    }

    /// The treasury balance as the DAO reports it: zero.
    pub fn get_treasury_balance(&self) -> (r: Result<u64, GovernanceError>)
        ensures
            r == Ok::<u64, GovernanceError>(0),
    {
        Ok(0)
    }
}

/// A proposal action that sets a parameter by name changes exactly the
/// named field of the configuration to the value given, and nothing else;
/// an unknown name or a value that is no `u64` is refused and changes
/// nothing.
pub proof fn lemma_parameter_action_sets_named_field(
    c: GovernanceConfig,
    m: Map<Seq<char>, MemberView>,
    key: Seq<char>,
    value: Seq<char>,
    now: u64,
)
    ensures
        ({
            let out = applied_actions(c, m, seq![ActionView::UpdateParameter { key, value }], now);
            &&& parse_u64_spec(value) matches Some(v) ==> {
                &&& key == "voting_delay"@ ==> out == (GovernanceConfig { voting_delay: v, ..c }, m, None::<GovernanceError>)
                &&& key == "voting_period"@ ==> out == (GovernanceConfig { voting_period: v, ..c }, m, None::<GovernanceError>)
                &&& key == "proposal_threshold"@ ==> out == (GovernanceConfig { proposal_threshold: v, ..c }, m, None::<GovernanceError>)
                &&& key == "quorum_votes"@ ==> out == (GovernanceConfig { quorum_votes: v, ..c }, m, None::<GovernanceError>)
                &&& key == "timelock_delay"@ ==> out == (GovernanceConfig { timelock_delay: v, ..c }, m, None::<GovernanceError>)
            }
            &&& parse_u64_spec(value) is None ==> out.0 == c && out.1 == m && out.2 is Some
            &&& key != "voting_delay"@ && key != "voting_period"@ && key != "proposal_threshold"@ && key != "quorum_votes"@
                && key != "timelock_delay"@ ==> out == (c, m, Some(GovernanceError::UnknownParameter))
        }),
{
    reveal_strlit("voting_delay");
    reveal_strlit("voting_period");
    reveal_strlit("proposal_threshold");
    reveal_strlit("quorum_votes");
    reveal_strlit("timelock_delay");
    assert("voting_delay"@.len() == 12 && "quorum_votes"@.len() == 12 && "voting_period"@.len() == 13);
    assert("proposal_threshold"@.len() == 18 && "timelock_delay"@.len() == 14);
    assert("voting_delay"@[0] != "quorum_votes"@[0]);
    let acts = seq![ActionView::UpdateParameter { key, value }];
    assert(acts.drop_first() =~= Seq::<ActionView>::empty());
    assert(acts[0] == ActionView::UpdateParameter { key, value });
    let step = applied_action(c, m, acts[0], now);
    assert(step == match updated_config(c, key, value) {
        Ok(c2) => Ok((c2, m)),
        Err(e) => Err::<(GovernanceConfig, Map<Seq<char>, MemberView>), GovernanceError>(e),
    });
    let out = applied_actions(c, m, acts, now);
    match step {
        Ok(cm) => {
            assert(applied_actions(cm.0, cm.1, Seq::<ActionView>::empty(), now) == (cm.0, cm.1, None::<GovernanceError>));
            assert(out == (cm.0, cm.1, None::<GovernanceError>));
        },
        Err(e) => {
            assert(out == (c, m, Some(e)));
        },
    }
}

/// Only a creator holding at least the proposal threshold in tokens can
/// create a proposal: it gets the next id, is pending and carries what the
/// creator gave; anyone below the threshold is refused and nothing changes.
pub proof fn lemma_proposal_needs_threshold(
    pre: DAO,
    post: DAO,
    creator: Seq<char>,
    title: Seq<char>,
    description: Seq<char>,
    actions: Seq<ProposalAction>,
    now: u64,
    r: Result<u64, GovernanceError>,
)
    requires
        dao_create_outcome(pre, post, creator, title, description, actions, now, r),
    ensures
        (r is Ok) == (pre.spec_voting_power(creator) >= pre.spec_config().proposal_threshold),
        r is Err ==> post == pre,
        r matches Ok(id) ==> {
            &&& id == pre.spec_next_id()
            &&& post.spec_proposals().contains_key(id)
            &&& post.spec_proposals()[id].creator == creator
            &&& post.spec_proposals()[id].title == title
            &&& post.spec_proposals()[id].description == description
            &&& post.spec_proposals()[id].status == ProposalStatus::Pending
            &&& post.spec_sessions().contains_key(id)
            &&& post.spec_sessions()[id].votes.len() == 0
            &&& post.spec_sessions()[id].total_for == 0
            &&& post.spec_sessions()[id].total_against == 0
        },
{
}

} // verus!
