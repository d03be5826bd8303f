//! Token-weighted voting sessions, one per proposal.
use vstd::prelude::*;
use crate::clock::now_millis;
use crate::governance::GovernanceError;
use crate::keyed::{
    keyed_map, keys_distinct, lemma_keyed_map_absent, lemma_keyed_map_index, lemma_keyed_map_remove,
    lemma_keyed_map_update, lemma_keys_distinct_push,
};
use crate::types::Address;

verus! {

#[derive(Debug, Clone)]
pub struct Vote {
    pub voter: Address,
    pub support: bool,
    pub voting_power: u64,
    pub timestamp: u64,
}

/// The view of a vote.
pub struct VoteView {
    pub voter: Seq<char>,
    pub support: bool,
    pub voting_power: u64,
    pub timestamp: u64,
}

impl View for Vote {
    type V = VoteView;

    open spec fn view(&self) -> VoteView {
        VoteView { voter: self.voter@, support: self.support, voting_power: self.voting_power, timestamp: self.timestamp }
    }
}

/// The votes of one proposal. `votes` holds one vote per voter.
#[derive(Debug, Clone)]
pub struct VotingSession {
    pub proposal_id: u64,
    pub votes: Vec<Vote>,
    pub total_for: u64,
    pub total_against: u64,
    pub total_voters: usize,
}

/// The view of a voting session.
pub struct SessionView {
    pub proposal_id: u64,
    pub votes: Seq<VoteView>,
    pub total_for: u64,
    pub total_against: u64,
    pub total_voters: usize,
}

impl View for VotingSession {
    type V = SessionView;

    open spec fn view(&self) -> SessionView {
        SessionView {
            proposal_id: self.proposal_id,
            votes: self.votes@.map_values(|v: Vote| v@),
            total_for: self.total_for,
            total_against: self.total_against,
            total_voters: self.total_voters,
        }
    }
}

/// The key of a vote: its voter.
pub open spec fn vote_key() -> spec_fn(VoteView) -> Seq<char> {
    |v: VoteView| v.voter
}

/// The key of a session: its proposal.
pub open spec fn session_key() -> spec_fn(SessionView) -> u64 {
    |s: SessionView| s.proposal_id
}

/// The total voting power of the votes for (`support`) or against.
pub open spec fn power_sum(votes: Seq<VoteView>, support: bool) -> nat
    decreases votes.len(),
{
    if votes.len() == 0 {
        0
    } else {
        power_sum(votes.drop_last(), support) + if votes.last().support == support {
            votes.last().voting_power as nat
        } else {
            0
        }
    }
}

/// A session is consistent: one vote per voter, and its totals are the sums
/// and count of its votes.
pub open spec fn session_consistent(s: SessionView) -> bool {
    &&& keys_distinct(s.votes, vote_key())
    &&& s.total_for == power_sum(s.votes, true)
    &&& s.total_against == power_sum(s.votes, false)
    &&& s.total_voters == s.votes.len()
}

/// The session after `voter` voted.
pub open spec fn session_after_vote(s: SessionView, voter: Seq<char>, support: bool, power: u64, now: u64) -> SessionView {
    SessionView {
        votes: s.votes.push(VoteView { voter, support, voting_power: power, timestamp: now }),
        total_for: if support { (s.total_for + power) as u64 } else { s.total_for },
        total_against: if support { s.total_against } else { (s.total_against + power) as u64 },
        total_voters: (s.total_voters + 1) as usize,
        ..s
    }
}

/// What recording a vote by `voter` on `proposal_id` at clock reading
/// `now` makes of `pre`, returning `r`: a missing session or a repeated
/// voter is refused and the sessions stay; otherwise the vote joins the
/// session and its weight the tally of its side.
pub open spec fn vote_recorded_outcome(pre: VotingSystem, post: VotingSystem, proposal_id: u64, voter: Seq<char>, support: bool, voting_power: u64, now: u64, r: Result<(), GovernanceError>) -> bool {
    &&& post.spec_address() == pre.spec_address()
    &&& !pre.spec_sessions().contains_key(proposal_id) ==> r == Err::<(), GovernanceError>(
        GovernanceError::SessionNotFound
    ) && post.spec_sessions() == pre.spec_sessions()
    &&& pre.spec_sessions().contains_key(proposal_id) && keyed_map(
        pre.spec_sessions()[proposal_id].votes,
        vote_key()
    ).contains_key(voter) ==> r == Err::<(), GovernanceError>(GovernanceError::AlreadyVoted)
        && post.spec_sessions() == pre.spec_sessions()
    &&& pre.spec_sessions().contains_key(proposal_id) && !keyed_map(
        pre.spec_sessions()[proposal_id].votes,
        vote_key()
    ).contains_key(voter) ==> r is Ok && post.spec_sessions() == pre.spec_sessions().insert(
        proposal_id,
        session_after_vote(pre.spec_sessions()[proposal_id], voter, support, voting_power, now)
    )
}

/// An empty session for a proposal.
pub open spec fn empty_session(proposal_id: u64) -> SessionView {
    SessionView { proposal_id, votes: Seq::empty(), total_for: 0, total_against: 0, total_voters: 0 }
}

/// An accepted vote adds the voter's power to the tally of the side it
/// supports and leaves the other side's tally alone; the number of voters
/// grows by one and the vote is kept last. A voter is counted once: a second
/// vote by the same voter is refused and changes no session.
pub proof fn lemma_vote_tallies(
    pre: VotingSystem,
    post: VotingSystem,
    proposal_id: u64,
    voter: Seq<char>,
    support: bool,
    power: u64,
    now: u64,
    r: Result<(), GovernanceError>,
)
    requires
        vote_recorded_outcome(pre, post, proposal_id, voter, support, power, now, r),
        pre.spec_sessions().contains_key(proposal_id),
        pre.spec_sessions()[proposal_id].total_for + power <= u64::MAX,
        pre.spec_sessions()[proposal_id].total_against + power <= u64::MAX,
        pre.spec_sessions()[proposal_id].total_voters < usize::MAX,
    ensures
        r is Ok ==> {
            let s = pre.spec_sessions()[proposal_id];
            let t = post.spec_sessions()[proposal_id];
            &&& post.spec_sessions().contains_key(proposal_id)
            &&& t.total_for == if support { s.total_for + power } else { s.total_for as int }
            &&& t.total_against == if support { s.total_against as int } else { s.total_against + power }
            &&& t.total_voters == s.total_voters + 1
            &&& t.votes.len() == s.votes.len() + 1
            &&& t.votes.last().voter == voter && t.votes.last().support == support && t.votes.last().voting_power
                == power
        },
        keyed_map(pre.spec_sessions()[proposal_id].votes, vote_key()).contains_key(voter) ==> r is Err
            && post.spec_sessions() == pre.spec_sessions(),
{
}

#[derive(Debug, Clone)]
pub struct VotingSystem {
    address: Address,
    sessions: Vec<VotingSession>,
}

impl VotingSystem {
    /// The address of the voting system.
    pub closed spec fn spec_address(&self) -> Seq<char> {
        self.address@
    }

    /// The address of the voting system.
    pub fn address(&self) -> (r: &Address)
        ensures
            r@ == self.spec_address(),
    {
        &self.address
    }

    /// The sessions in the order they were opened.
    pub closed spec fn spec_list(&self) -> Seq<SessionView> {
        self.sessions@.map_values(|s: VotingSession| s@)
    }

    /// The sessions by proposal.
    pub open spec fn spec_sessions(&self) -> Map<u64, SessionView> {
        keyed_map(self.spec_list(), session_key())
    }

    /// One session per proposal, each consistent.
    pub closed spec fn wf(&self) -> bool {
        &&& keys_distinct(self.spec_list(), session_key())
        &&& forall|i: int| 0 <= i < self.spec_list().len() ==> session_consistent(#[trigger] self.spec_list()[i])
    }

    /// Every session is consistent.
    pub proof fn lemma_sessions_consistent(&self, pid: u64)
        requires
            self.wf(),
            self.spec_sessions().contains_key(pid),
        ensures
            session_consistent(self.spec_sessions()[pid]),
    {
        crate::keyed::lemma_keyed_map_dom(self.spec_list(), session_key(), pid);
        let i = choose|i: int| 0 <= i < self.spec_list().len() && (session_key())(self.spec_list()[i]) == pid;
        lemma_keyed_map_index(self.spec_list(), session_key(), i);
    }

    pub fn new(address: Address) -> (r: VotingSystem)
        ensures
            r.wf(),
            r.spec_address() == address@,
            r.spec_sessions() == Map::<u64, SessionView>::empty(),
    {
        let r = VotingSystem { address, sessions: Vec::new() };
        assert(r.spec_list() =~= Seq::<SessionView>::empty());
        r
    }

    /// Position of the session of a proposal.
    fn find(&self, proposal_id: u64) -> (r: Option<usize>)
        requires
            self.wf(),
        ensures
            match r {
                Some(i) => i < self.sessions@.len() && self.sessions@[i as int].proposal_id == proposal_id
                    && self.spec_sessions().contains_key(proposal_id)
                    && self.spec_sessions()[proposal_id] == self.sessions@[i as int]@,
                None => !self.spec_sessions().contains_key(proposal_id),
            },
    {
        let mut i: usize = 0;
        while i < self.sessions.len()
            invariant
                0 <= i <= self.sessions@.len(),
                self.wf(),
                forall|j: int| 0 <= j < i ==> (#[trigger] self.sessions@[j]).proposal_id != proposal_id,
            decreases self.sessions@.len() - i,
        {
            if self.sessions[i].proposal_id == proposal_id {
                proof {
                    lemma_keyed_map_index(self.spec_list(), session_key(), i as int);
                }
                return Some(i);
            }
            i = i + 1;
        }
        proof {
            assert forall|j: int| 0 <= j < self.spec_list().len() implies (session_key())(self.spec_list()[j])
                != proposal_id by {
                assert(self.spec_list()[j] == self.sessions@[j]@);
            }
            lemma_keyed_map_absent(self.spec_list(), session_key(), proposal_id);
        }
        None
    }

    /// Opens an empty voting session for a proposal.
    pub fn initialize_voting_session(&mut self, proposal_id: u64) -> (r: Result<(), GovernanceError>)
        requires
            old(self).wf(),
        ensures
            final(self).wf(),
            final(self).spec_address() == old(self).spec_address(),
            old(self).spec_sessions().contains_key(proposal_id) ==> r == Err::<(), GovernanceError>(
                GovernanceError::SessionAlreadyExists,
            ) && final(self).spec_sessions() == old(self).spec_sessions(),
            !old(self).spec_sessions().contains_key(proposal_id) ==> r is Ok && final(self).spec_sessions()
                == old(self).spec_sessions().insert(proposal_id, empty_session(proposal_id)),
    {
        if self.find(proposal_id).is_some() {
            return Err(GovernanceError::SessionAlreadyExists);
        }
        let session = VotingSession { proposal_id, votes: Vec::new(), total_for: 0, total_against: 0, total_voters: 0 };
        let ghost sv = session@;
        proof {
            assert(sv.votes =~= Seq::<VoteView>::empty());
            assert(sv == empty_session(proposal_id));
            lemma_keys_distinct_push(self.spec_list(), session_key(), sv);
        }
        self.sessions.push(session);
        proof {
            assert(self.spec_list() =~= old(self).spec_list().push(sv));
            assert(self.spec_list().drop_last() =~= old(self).spec_list());
            assert(session_consistent(sv)) by {
                assert(keys_distinct(sv.votes, vote_key()));
            }
        }
        Ok(())
    }

    /// Records a vote at clock reading `now`: one vote per voter and session,
    /// its power added to the side it supports.
    pub fn record_vote_at(&mut self, proposal_id: u64, voter: &Address, support: bool, voting_power: u64, now: u64) -> (r: Result<(), GovernanceError>)
        requires
            old(self).wf(),
            old(self).spec_sessions().contains_key(proposal_id) ==> {
                let s = old(self).spec_sessions()[proposal_id];
                if support { s.total_for + voting_power <= u64::MAX } else { s.total_against + voting_power <= u64::MAX }
            },
        ensures
            final(self).wf(),
            vote_recorded_outcome(*old(self), *final(self), proposal_id, voter@, support, voting_power, now, r),
    {
        let i = match self.find(proposal_id) {
            None => return Err(GovernanceError::SessionNotFound),
            Some(i) => i,
        };
        let ghost s = self.sessions@[i as int]@;
        proof {
            assert(self.spec_list()[i as int] == s);
            assert(self.spec_sessions()[proposal_id] == s);
        }
        let mut j: usize = 0;
        while j < self.sessions[i].votes.len()
            invariant
                0 <= j <= self.sessions@[i as int].votes@.len(),
                i < self.sessions@.len(),
                s == self.sessions@[i as int]@,
                forall|k: int| 0 <= k < j ==> (#[trigger] self.sessions@[i as int].votes@[k])@.voter != voter@,
                keys_distinct(s.votes, vote_key()),
                *self == *old(self),
                old(self).wf(),
                old(self).spec_sessions().contains_key(proposal_id),
                old(self).spec_sessions()[proposal_id] == s,
            decreases self.sessions@[i as int].votes@.len() - j,
        {
            if self.sessions[i].votes[j].voter.same_as(voter) {
                proof {
                    assert(s.votes[j as int] == self.sessions@[i as int].votes@[j as int]@);
                    lemma_keyed_map_index(s.votes, vote_key(), j as int);
                }
                return Err(GovernanceError::AlreadyVoted);
            }
            j = j + 1;
        }
        proof {
            assert forall|k: int| 0 <= k < s.votes.len() implies (vote_key())(s.votes[k]) != voter@ by {
                assert(s.votes[k] == self.sessions@[i as int].votes@[k]@);
            }
            lemma_keyed_map_absent(s.votes, vote_key(), voter@);
        }
        let vote = Vote { voter: voter.duplicate(), support, voting_power, timestamp: now };
        let ghost vv = vote@;
        let ghost before = self.sessions@;
        if support {
            self.sessions[i].total_for = self.sessions[i].total_for + voting_power;
        } else {
            self.sessions[i].total_against = self.sessions[i].total_against + voting_power;
        }
        self.sessions[i].votes.push(vote);
        self.sessions[i].total_voters = self.sessions[i].votes.len();
        proof {
            let ns = self.sessions@[i as int]@;
            assert(ns.votes =~= s.votes.push(vv));
            assert(ns.votes.drop_last() =~= s.votes);
            assert(ns == session_after_vote(s, voter@, support, voting_power, now));
            lemma_keys_distinct_push(s.votes, vote_key(), vv);
            assert(session_consistent(ns));
            assert(self.spec_list() =~= old(self).spec_list().update(i as int, ns));
            lemma_keyed_map_update(old(self).spec_list(), session_key(), i as int, ns);
            assert forall|k: int| 0 <= k < self.spec_list().len() implies session_consistent(#[trigger] self.spec_list()[k]) by {
                if k != i {
                    assert(self.spec_list()[k] == old(self).spec_list()[k]);
                }
            }
        }
        Ok(())
    }

    /// Records a vote now.
    pub fn record_vote(&mut self, proposal_id: u64, voter: &Address, support: bool, voting_power: u64) -> (r: Result<(), GovernanceError>)
        requires
            old(self).wf(),
            old(self).spec_sessions().contains_key(proposal_id) ==> {
                let s = old(self).spec_sessions()[proposal_id];
                if support { s.total_for + voting_power <= u64::MAX } else { s.total_against + voting_power <= u64::MAX }
            },
        ensures
            final(self).wf(),
            exists|now: u64| #[trigger] vote_recorded_outcome(
                *old(self),
                *final(self),
                proposal_id,
                voter@,
                support,
                voting_power,
                now,
                r,
            ),
    {
        let now = now_millis();
        let r = self.record_vote_at(proposal_id, voter, support, voting_power, now);
        assert(vote_recorded_outcome(*old(self), *self, proposal_id, voter@, support, voting_power, now, r));
        r
    }

    /// The vote of a voter on a proposal.
    pub fn get_vote(&self, proposal_id: u64, voter: &Address) -> (r: Option<&Vote>)
        requires
            self.wf(),
        ensures
            match r {
                Some(v) => self.spec_sessions().contains_key(proposal_id) && keyed_map(
                    self.spec_sessions()[proposal_id].votes,
                    vote_key(),
                ).contains_key(voter@) && v@ == keyed_map(self.spec_sessions()[proposal_id].votes, vote_key())[voter@],
                None => !self.spec_sessions().contains_key(proposal_id) || !keyed_map(
                    self.spec_sessions()[proposal_id].votes,
                    vote_key(),
                ).contains_key(voter@),
            },
    {
        let i = match self.find(proposal_id) {
            None => return None,
            Some(i) => i,
        };
        let ghost s = self.sessions@[i as int]@;
        proof {
            assert(self.spec_list()[i as int] == s);
            assert(session_consistent(s));
        }
        let mut j: usize = 0;
        while j < self.sessions[i].votes.len()
            invariant
                0 <= j <= self.sessions@[i as int].votes@.len(),
                i < self.sessions@.len(),
                s == self.sessions@[i as int]@,
                forall|k: int| 0 <= k < j ==> (#[trigger] self.sessions@[i as int].votes@[k])@.voter != voter@,
                keys_distinct(s.votes, vote_key()),
                self.wf(),
                self.spec_sessions().contains_key(proposal_id),
                self.spec_sessions()[proposal_id] == s,
            decreases self.sessions@[i as int].votes@.len() - j,
        {
            if self.sessions[i].votes[j].voter.same_as(voter) {
                proof {
                    assert(s.votes[j as int] == self.sessions@[i as int].votes@[j as int]@);
                    lemma_keyed_map_index(s.votes, vote_key(), j as int);
                }
                return Some(&self.sessions[i].votes[j]);
            }
            j = j + 1;
        }
        proof {
            assert forall|k: int| 0 <= k < s.votes.len() implies (vote_key())(s.votes[k]) != voter@ by {
                assert(s.votes[k] == self.sessions@[i as int].votes@[k]@);
            }
            lemma_keyed_map_absent(s.votes, vote_key(), voter@);
        }
        None
    }

    /// The totals for, against and the number of voters of a proposal.
    pub fn get_voting_results(&self, proposal_id: u64) -> (r: Option<(u64, u64, usize)>)
        requires
            self.wf(),
        ensures
            r == if self.spec_sessions().contains_key(proposal_id) {
                let s = self.spec_sessions()[proposal_id];
                Some((s.total_for, s.total_against, s.total_voters))
            } else {
                None
            },
    {
        match self.find(proposal_id) {
            None => None,
            Some(i) => {
                let s = &self.sessions[i];
                Some((s.total_for, s.total_against, s.total_voters))
            },
        }
    }

    /// Whether a voter voted on a proposal.
    pub fn has_voted(&self, proposal_id: u64, voter: &Address) -> (r: bool)
        requires
            self.wf(),
        ensures
            r == (self.spec_sessions().contains_key(proposal_id) && keyed_map(
                self.spec_sessions()[proposal_id].votes,
                vote_key(),
            ).contains_key(voter@)),
    {
        self.get_vote(proposal_id, voter).is_some()
    }

    /// The session of a proposal.
    pub fn get_session(&self, proposal_id: u64) -> (r: Option<&VotingSession>)
        requires
            self.wf(),
        ensures
            match r {
                Some(s) => self.spec_sessions().contains_key(proposal_id) && s@ == self.spec_sessions()[proposal_id],
                None => !self.spec_sessions().contains_key(proposal_id),
            },
    {
        match self.find(proposal_id) {
            None => None,
            Some(i) => Some(&self.sessions[i]),
        }
    }

    /// Closes the session of a proposal, if any.
    pub fn cleanup_session(&mut self, proposal_id: u64) -> (r: Result<(), GovernanceError>)
        requires
            old(self).wf(),
        ensures
            final(self).wf(),
            final(self).spec_address() == old(self).spec_address(),
            r is Ok,
            final(self).spec_sessions() == old(self).spec_sessions().remove(proposal_id),
    {
        match self.find(proposal_id) {
            None => {
                assert(old(self).spec_sessions().remove(proposal_id) =~= old(self).spec_sessions());
            },
            Some(i) => {
                self.sessions.remove(i);
                proof {
                    assert(self.spec_list() =~= old(self).spec_list().remove(i as int));
                    lemma_keyed_map_remove(old(self).spec_list(), session_key(), i as int);
                    assert forall|k: int| 0 <= k < self.spec_list().len() implies session_consistent(#[trigger] self.spec_list()[k]) by {
                        let k2 = if k < i { k } else { k + 1 };
                        assert(self.spec_list()[k] == old(self).spec_list()[k2]);
                    }
                }
            },
        }
        Ok(())
    }
}

} // verus!
