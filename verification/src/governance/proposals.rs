//! Governance proposals: creation, status changes and queries.
use vstd::prelude::*;
use crate::clock::now_millis;
use crate::encoding::{copy_bytes, decimal_chars, u64_to_string};
use crate::governance::GovernanceError;
use crate::keyed::{
    keyed_map, keys_distinct, lemma_keyed_map_absent, lemma_keyed_map_dom, lemma_keyed_map_index,
    lemma_keyed_map_update, lemma_keys_distinct_push,
};
use crate::types::Address;

verus! {

/// What a proposal does when executed.
#[derive(Debug, Clone)]
pub enum ProposalAction {
    TransferFunds { to: Address, amount: u64 },
    UpdateParameter { key: String, value: String },
    AddMember { address: Address, tokens: u64 },
    UpgradeContract { new_code: Vec<u8> },
}

/// The view of a proposal action.
pub enum ActionView {
    TransferFunds { to: Seq<char>, amount: u64 },
    UpdateParameter { key: Seq<char>, value: Seq<char> },
    AddMember { address: Seq<char>, tokens: u64 },
    UpgradeContract { new_code: Seq<u8> },
}

impl View for ProposalAction {
    type V = ActionView;

    open spec fn view(&self) -> ActionView {
        match self {
            ProposalAction::TransferFunds { to, amount } => ActionView::TransferFunds { to: to@, amount: *amount },
            ProposalAction::UpdateParameter { key, value } => ActionView::UpdateParameter { key: key@, value: value@ },
            ProposalAction::AddMember { address, tokens } => ActionView::AddMember { address: address@, tokens: *tokens },
            ProposalAction::UpgradeContract { new_code } => ActionView::UpgradeContract { new_code: new_code@ },
        }
    }
}

impl ProposalAction {
    /// A copy of the action.
    pub fn duplicate(&self) -> (r: ProposalAction)
        ensures
            r@ == self@,
    {
        match self {
            ProposalAction::TransferFunds { to, amount } => ProposalAction::TransferFunds {
                to: to.duplicate(),
                amount: *amount,
            },
            ProposalAction::UpdateParameter { key, value } => ProposalAction::UpdateParameter {
                key: key.clone(),
                value: value.clone(),
            },
            ProposalAction::AddMember { address, tokens } => ProposalAction::AddMember {
                address: address.duplicate(),
                tokens: *tokens,
            },
            ProposalAction::UpgradeContract { new_code } => ProposalAction::UpgradeContract {
                new_code: copy_bytes(new_code),
            },
        }
    }
}

/// The views of a list of actions.
pub open spec fn action_views(v: Seq<ProposalAction>) -> Seq<ActionView> {
    v.map_values(|a: ProposalAction| a@)
}

/// A copy of a list of actions.
pub fn copy_actions(v: &Vec<ProposalAction>) -> (r: Vec<ProposalAction>)
    ensures
        action_views(r@) == action_views(v@),
{
    let mut out: Vec<ProposalAction> = Vec::new();
    let mut i: usize = 0;
    while i < v.len()
        invariant
            0 <= i <= v@.len(),
            action_views(out@) == action_views(v@).take(i as int),
        decreases v@.len() - i,
    {
        let ghost before = out@;
        out.push(v[i].duplicate());
        proof {
            assert(action_views(out@) =~= action_views(before).push(v@[i as int]@));
            assert(action_views(out@) =~= action_views(v@).take(i + 1));
        }
        i = i + 1;
    }
    assert(action_views(v@).take(v@.len() as int) =~= action_views(v@));
    out
}

#[derive(Debug, Clone, Copy, PartialEq, Eq, Structural)]
pub enum ProposalStatus {
    Pending,
    Active,
    Succeeded,
    Defeated,
    Executed,
    Expired,
}

#[derive(Debug, Clone)]
pub struct Proposal {
    pub id: u64,
    pub creator: Address,
    pub title: String,
    pub description: String,
    pub actions: Vec<ProposalAction>,
    pub created_at: u64,
    pub status: ProposalStatus,
    pub executed_at: Option<u64>,
}

/// The view of a proposal.
pub struct ProposalView {
    pub id: u64,
    pub creator: Seq<char>,
    pub title: Seq<char>,
    pub description: Seq<char>,
    pub actions: Seq<ActionView>,
    pub created_at: u64,
    pub status: ProposalStatus,
    pub executed_at: Option<u64>,
}

impl View for Proposal {
    type V = ProposalView;

    open spec fn view(&self) -> ProposalView {
        ProposalView {
            id: self.id,
            creator: self.creator@,
            title: self.title@,
            description: self.description@,
            actions: action_views(self.actions@),
            created_at: self.created_at,
            status: self.status,
            executed_at: self.executed_at,
        }
    }
}

/// The key of a proposal view: its id.
pub open spec fn proposal_key() -> spec_fn(ProposalView) -> u64 {
    |p: ProposalView| p.id
}

/// Still open: pending or active.
pub open spec fn is_open_status(s: ProposalStatus) -> bool {
    s == ProposalStatus::Pending || s == ProposalStatus::Active
}

/// The title given to a proposal added by id: `Proposal <id>`.
pub open spec fn added_title(id: u64) -> Seq<char> {
    seq!['P', 'r', 'o', 'p', 'o', 's', 'a', 'l', ' '] + decimal_chars(id as nat)
}

/// What creating a proposal at clock reading `now` makes of `pre`,
/// returning `r`: a pending proposal with the next id, the given creator,
/// title, description and actions, created at `now`.
pub open spec fn create_outcome(pre: ProposalManager, post: ProposalManager, creator: Seq<char>, title: Seq<char>, description: Seq<char>, actions: Seq<ProposalAction>, now: u64, r: Result<u64, GovernanceError>) -> bool {
    &&& r == Ok::<u64, GovernanceError>(pre.spec_next_id())
    &&& post.spec_next_id() == pre.spec_next_id() + 1
    &&& post.spec_map() == pre.spec_map().insert(
        pre.spec_next_id(),
        ProposalView {
            id: pre.spec_next_id(),
            creator: creator,
            title: title,
            description: description,
            actions: action_views(actions),
            created_at: now,
            status: ProposalStatus::Pending,
            executed_at: None,
        }
    )
}

/// What adding proposal `id` at clock reading `now` makes of `pre`,
/// returning `r`: an id in use is refused and nothing changes; otherwise a
/// pending proposal with a generated title and description is added and
/// the next id moves past it.
pub open spec fn add_outcome(pre: ProposalManager, post: ProposalManager, id: u64, creator: Seq<char>, actions: Seq<ProposalAction>, now: u64, r: Result<(), GovernanceError>) -> bool {
    &&& pre.spec_map().contains_key(id) ==> r == Err::<(), GovernanceError>(GovernanceError::ProposalIdExists)
        && post == pre
    &&& !pre.spec_map().contains_key(id) ==> r is Ok && post.spec_map() == pre.spec_map().insert(
        id,
        ProposalView {
            id,
            creator: creator,
            title: added_title(id),
            description: added_description(id),
            actions: action_views(actions),
            created_at: now,
            status: ProposalStatus::Pending,
            executed_at: None,
        }
    ) && post.spec_next_id() == if pre.spec_next_id() >= id + 1 {
        pre.spec_next_id()
    } else {
        (id + 1) as u64
    }
}

/// What setting proposal `id`'s status at clock reading `now` makes of
/// `pre`, returning `r`: an unknown id is refused and nothing changes;
/// otherwise the status is set, and an executed proposal records `now`.
pub open spec fn status_outcome(pre: ProposalManager, post: ProposalManager, id: u64, status: ProposalStatus, now: u64, r: Result<(), GovernanceError>) -> bool {
    &&& post.spec_next_id() == pre.spec_next_id()
    &&& !pre.spec_map().contains_key(id) ==> r == Err::<(), GovernanceError>(GovernanceError::ProposalNotFound)
        && post.spec_map() == pre.spec_map()
    &&& pre.spec_map().contains_key(id) ==> r is Ok && post.spec_map() == pre.spec_map().insert(
        id,
        ProposalView {
            status,
            executed_at: if status == ProposalStatus::Executed { Some(now) } else { pre.spec_map()[id].executed_at },
            ..pre.spec_map()[id]
        }
    )
}

/// What marking proposal `id` executed at clock reading `now` makes of
/// `pre`, returning `r`: an unknown id is refused and nothing changes;
/// otherwise the proposal is executed at `now` and nothing else changes.
pub open spec fn executed_outcome(pre: ProposalManager, post: ProposalManager, id: u64, now: u64, r: Result<(), GovernanceError>) -> bool {
    &&& post.spec_next_id() == pre.spec_next_id()
    &&& !pre.spec_map().contains_key(id) ==> r == Err::<(), GovernanceError>(GovernanceError::ProposalNotFound)
        && post.spec_map() == pre.spec_map()
    &&& pre.spec_map().contains_key(id) ==> r is Ok && post.spec_map() == pre.spec_map().insert(
        id,
        ProposalView { status: ProposalStatus::Executed, executed_at: Some(now), ..pre.spec_map()[id] }
    )
}

/// The description given to a proposal added by id:
/// `Description for proposal <id>`.
pub open spec fn added_description(id: u64) -> Seq<char> {
    seq![
        'D', 'e', 's', 'c', 'r', 'i', 'p', 't', 'i', 'o', 'n', ' ', 'f', 'o', 'r', ' ',
        'p', 'r', 'o', 'p', 'o', 's', 'a', 'l', ' ',
    ] + decimal_chars(id as nat)
}

#[derive(Debug, Clone, Default)]
pub struct ProposalManager {
    proposals: Vec<Proposal>,
    next_proposal_id: u64,
}

impl ProposalManager {
    /// The proposals in the order they were added.
    pub closed spec fn spec_list(&self) -> Seq<ProposalView> {
        self.proposals@.map_values(|p: Proposal| p@)
    }

    /// The proposals by id.
    pub open spec fn spec_map(&self) -> Map<u64, ProposalView> {
        keyed_map(self.spec_list(), proposal_key())
    }

    /// The id the next created proposal gets.
    pub closed spec fn spec_next_id(&self) -> u64 {
        self.next_proposal_id
    }

    /// Ids do not repeat and are all below the next id.
    pub closed spec fn wf(&self) -> bool {
        &&& keys_distinct(self.spec_list(), proposal_key())
        &&& forall|i: int| 0 <= i < self.proposals@.len() ==> (#[trigger] self.proposals@[i]).id < self.next_proposal_id
    }

    pub fn new() -> (r: ProposalManager)
        ensures
            r.wf(),
            r.spec_map() == Map::<u64, ProposalView>::empty(),
            r.spec_list() == Seq::<ProposalView>::empty(),
            r.spec_next_id() == 1,
    {
        let r = ProposalManager { proposals: Vec::new(), next_proposal_id: 1 };
        assert(r.spec_list() =~= Seq::<ProposalView>::empty());
        r
    }

    /// Position of the proposal with the given id.
    fn find(&self, id: u64) -> (r: Option<usize>)
        requires
            self.wf(),
        ensures
            match r {
                Some(i) => i < self.proposals@.len() && self.proposals@[i as int].id == id
                    && self.spec_map().contains_key(id) && self.spec_map()[id] == self.proposals@[i as int]@,
                None => !self.spec_map().contains_key(id),
            },
    {
        let mut i: usize = 0;
        while i < self.proposals.len()
            invariant
                0 <= i <= self.proposals@.len(),
                self.wf(),
                forall|j: int| 0 <= j < i ==> (#[trigger] self.proposals@[j]).id != id,
            decreases self.proposals@.len() - i,
        {
            if self.proposals[i].id == id {
                proof {
                    lemma_keyed_map_index(self.spec_list(), proposal_key(), i as int);
                }
                return Some(i);
            }
            i = i + 1;
        }
        proof {
            assert forall|j: int| 0 <= j < self.spec_list().len() implies (proposal_key())(self.spec_list()[j]) != id by {
                assert(self.spec_list()[j] == self.proposals@[j]@);
            }
            lemma_keyed_map_absent(self.spec_list(), proposal_key(), id);
        }
        None
    }

    /// Appends a proposal whose id is not in use.
    fn push_new(&mut self, p: Proposal)
        requires
            old(self).wf(),
            !old(self).spec_map().contains_key(p.id),
            p.id < old(self).next_proposal_id,
        ensures
            final(self).wf(),
            final(self).spec_map() == old(self).spec_map().insert(p.id, p@),
            final(self).spec_list() == old(self).spec_list().push(p@),
            final(self).proposals@ == old(self).proposals@.push(p),
            final(self).next_proposal_id == old(self).next_proposal_id,
    {
        let ghost pv = p@;
        proof {
            lemma_keys_distinct_push(self.spec_list(), proposal_key(), pv);
        }
        self.proposals.push(p);
        assert(self.spec_list() =~= old(self).spec_list().push(pv));
        assert(self.spec_list().drop_last() =~= old(self).spec_list());
    }

    /// Creates a pending proposal at clock reading `now`, with the next id.
    pub fn create_proposal_at(
        &mut self,
        creator: &Address,
        title: String,
        description: String,
        actions: Vec<ProposalAction>,
        now: u64,
    ) -> (r: Result<u64, GovernanceError>)
        requires
            old(self).wf(),
            old(self).spec_next_id() < u64::MAX,
        ensures
            final(self).wf(),
            create_outcome(*old(self), *final(self), creator@, title@, description@, actions@, now, r),
    {
        let id = self.next_proposal_id;
        let proposal = Proposal {
            id,
            creator: creator.duplicate(),
            title,
            description,
            actions,
            created_at: now,
            status: ProposalStatus::Pending,
            executed_at: None,
        };
        proof {
            if self.spec_map().contains_key(id) {
                lemma_keyed_map_dom(self.spec_list(), proposal_key(), id);
                let j = choose|j: int| 0 <= j < self.spec_list().len() && (proposal_key())(self.spec_list()[j]) == id;
                assert(self.spec_list()[j] == self.proposals@[j]@);
            }
        }
        self.next_proposal_id = self.next_proposal_id + 1;
        self.push_new(proposal);
        proof {
            assert forall|i: int| 0 <= i < self.proposals@.len() implies (#[trigger] self.proposals@[i]).id < self.next_proposal_id by {
                if i < old(self).proposals@.len() {
                    assert(self.proposals@[i] == old(self).proposals@[i]);
                }
            }
        }
        Ok(id)
    }

    /// Creates a pending proposal now, with the next id.
    pub fn create_proposal(
        &mut self,
        creator: &Address,
        title: String,
        description: String,
        actions: Vec<ProposalAction>,
    ) -> (r: Result<u64, GovernanceError>)
        requires
            old(self).wf(),
            old(self).spec_next_id() < u64::MAX,
        ensures
            final(self).wf(),
            exists|now: u64| #[trigger] create_outcome(
                *old(self),
                *final(self),
                creator@,
                title@,
                description@,
                actions@,
                now,
                r,
            ),
    {
        let now = now_millis();
        let ghost (t, d, a) = (title@, description@, actions@);
        let r = self.create_proposal_at(creator, title, description, actions, now);
        assert(create_outcome(*old(self), *self, creator@, t, d, a, now, r));
        r
    }

    /// Adds a pending proposal with a chosen id at clock reading `now`; the
    /// next id moves past it.
    pub fn add_proposal_at(&mut self, id: u64, creator: &Address, actions: Vec<ProposalAction>, now: u64) -> (r: Result<(), GovernanceError>)
        requires
            old(self).wf(),
            id < u64::MAX,
        ensures
            final(self).wf(),
            add_outcome(*old(self), *final(self), id, creator@, actions@, now, r),
    {
        if self.find(id).is_some() {
            return Err(GovernanceError::ProposalIdExists);
        }
        let mut title = String::from_str("Proposal ");
        let digits = u64_to_string(id);
        title.append(digits.as_str());
        let mut description = String::from_str("Description for proposal ");
        description.append(digits.as_str());
        proof {
            reveal_strlit("Proposal ");
            reveal_strlit("Description for proposal ");
            assert(title@ =~= added_title(id));
            assert(description@ =~= added_description(id));
        }
        let proposal = Proposal {
            id,
            creator: creator.duplicate(),
            title,
            description,
            actions,
            created_at: now,
            status: ProposalStatus::Pending,
            executed_at: None,
        };
        if self.next_proposal_id < id + 1 {
            self.next_proposal_id = id + 1;
        }
        self.push_new(proposal);
        proof {
            assert forall|i: int| 0 <= i < self.proposals@.len() implies (#[trigger] self.proposals@[i]).id < self.next_proposal_id by {
                if i < old(self).proposals@.len() {
                    assert(self.proposals@[i] == old(self).proposals@[i]);
                }
            }
        }
        Ok(())
    }

    /// Adds a pending proposal with a chosen id now.
    pub fn add_proposal(&mut self, id: u64, creator: &Address, actions: Vec<ProposalAction>) -> (r: Result<(), GovernanceError>)
        requires
            old(self).wf(),
            id < u64::MAX,
        ensures
            final(self).wf(),
            exists|now: u64| #[trigger] add_outcome(*old(self), *final(self), id, creator@, actions@, now, r),
    {
        let now = now_millis();
        let ghost a = actions@;
        let r = self.add_proposal_at(id, creator, actions, now);
        assert(add_outcome(*old(self), *self, id, creator@, a, now, r));
        r
    }

    /// Sets a proposal's status at clock reading `now`; an executed proposal
    /// records `now` as its execution time.
    pub fn update_proposal_status_at(&mut self, id: u64, status: ProposalStatus, now: u64) -> (r: Result<(), GovernanceError>)
        requires
            old(self).wf(),
        ensures
            final(self).wf(),
            status_outcome(*old(self), *final(self), id, status, now, r),
    {
        match self.find(id) {
            None => Err(GovernanceError::ProposalNotFound),
            Some(i) => {
                let ghost before = self.spec_list();
                self.proposals[i].status = status;
                if status == ProposalStatus::Executed {
                    self.proposals[i].executed_at = Some(now);
                }
                proof {
                    assert(self.spec_list() =~= before.update(i as int, self.proposals@[i as int]@));
                    lemma_keyed_map_update(before, proposal_key(), i as int, self.proposals@[i as int]@);
                    assert(self.proposals@[i as int]@ == (ProposalView {
                        status,
                        executed_at: if status == ProposalStatus::Executed { Some(now) } else { old(self).spec_map()[id].executed_at },
                        ..old(self).spec_map()[id]
                    }));
                    assert forall|j: int| 0 <= j < self.proposals@.len() implies (#[trigger] self.proposals@[j]).id < self.next_proposal_id by {
                        if j != i {
                            assert(self.proposals@[j] == old(self).proposals@[j]);
                        }
                    }
                }
                Ok(())
            },
        }
    }

    /// Sets a proposal's status now.
    pub fn update_proposal_status(&mut self, id: u64, status: ProposalStatus) -> (r: Result<(), GovernanceError>)
        requires
            old(self).wf(),
        ensures
            final(self).wf(),
            exists|now: u64| #[trigger] status_outcome(*old(self), *final(self), id, status, now, r),
    {
        let now = now_millis();
        let r = self.update_proposal_status_at(id, status, now);
        assert(status_outcome(*old(self), *self, id, status, now, r));
        r
    }

    /// Marks a proposal executed at clock reading `now`.
    pub fn mark_executed_at(&mut self, id: u64, now: u64) -> (r: Result<(), GovernanceError>)
        requires
            old(self).wf(),
        ensures
            final(self).wf(),
            executed_outcome(*old(self), *final(self), id, now, r),
    {
        self.update_proposal_status_at(id, ProposalStatus::Executed, now)
    }

    /// Marks a proposal executed now.
    pub fn mark_executed(&mut self, id: u64) -> (r: Result<(), GovernanceError>)
        requires
            old(self).wf(),
        ensures
            final(self).wf(),
            exists|now: u64| #[trigger] executed_outcome(*old(self), *final(self), id, now, r),
    {
        let now = now_millis();
        let r = self.mark_executed_at(id, now);
        assert(executed_outcome(*old(self), *self, id, now, r));
        r
    }

    /// The proposal with an id, to change in place. The manager keeps its
    /// invariant when the proposal keeps its id.
    pub fn get_proposal_mut(&mut self, id: u64) -> (r: Option<&mut Proposal>)
        requires
            old(self).wf(),
        ensures
            match r {
                Some(p) => old(self).spec_map().contains_key(id) && (*p)@ == old(self).spec_map()[id] && (
                (*final(p)).id == id ==> final(self).wf() && final(self).spec_map() == old(self).spec_map().insert(
                    id,
                    (*final(p))@,
                )),
                None => !old(self).spec_map().contains_key(id),
            },
            r is None ==> final(self).spec_list() == old(self).spec_list() && final(self).spec_next_id()
                == old(self).spec_next_id(),
            final(self).spec_next_id() == old(self).spec_next_id(),
            final(self).spec_list().len() == old(self).spec_list().len(),
    {
        match self.find(id) {
            Some(i) => {
                let ghost before = self.spec_list();
                proof {
                    assert(before[i as int] == self.proposals@[i as int]@);
                    assert forall|v: Proposal| v.id == id implies {
                        &&& keys_distinct(before.update(i as int, v@), proposal_key())
                        &&& keyed_map(before.update(i as int, v@), proposal_key()) == keyed_map(before, proposal_key()).insert(id, v@)
                    } by {
                        lemma_keyed_map_update(before, proposal_key(), i as int, v@);
                    }
                }
                let r = &mut self.proposals[i];
                proof {
                    assert(after_borrow(self.proposals)@ == old(self).proposals@.update(i as int, *final(r)));
                    assert(after_borrow(self.proposals)@.map_values(|p: Proposal| p@) =~= before.update(i as int, (*final(r))@));
                }
                Some(r)
            },
            None => None,
        }
    }

    pub fn get_proposal(&self, id: u64) -> (r: Option<&Proposal>)
        requires
            self.wf(),
        ensures
            match r {
                Some(p) => self.spec_map().contains_key(id) && p@ == self.spec_map()[id],
                None => !self.spec_map().contains_key(id),
            },
    {
        match self.find(id) {
            Some(i) => Some(&self.proposals[i]),
            None => None,
        }
    }

    pub fn get_proposal_actions(&self, id: u64) -> (r: Result<Option<Vec<ProposalAction>>, GovernanceError>)
        requires
            self.wf(),
        ensures
            match r {
                Ok(Some(v)) => self.spec_map().contains_key(id) && action_views(v@) == self.spec_map()[id].actions,
                Ok(None) => !self.spec_map().contains_key(id),
                Err(_) => false,
            },
    {
        match self.find(id) {
            Some(i) => Ok(Some(copy_actions(&self.proposals[i].actions))),
            None => Ok(None),
        }
    }

    pub fn get_proposal_status(&self, id: u64) -> (r: Result<Option<ProposalStatus>, GovernanceError>)
        requires
            self.wf(),
        ensures
            r == Ok::<Option<ProposalStatus>, GovernanceError>(
                if self.spec_map().contains_key(id) { Some(self.spec_map()[id].status) } else { None },
            ),
    {
        match self.find(id) {
            Some(i) => Ok(Some(self.proposals[i].status)),
            None => Ok(None),
        }
    }

    /// All proposals, in the order they were added.
    pub fn get_all_proposals(&self) -> (r: Vec<&Proposal>)
        ensures
            r@.len() == self.spec_list().len(),
            forall|i: int| 0 <= i < r@.len() ==> (#[trigger] r@[i])@ == self.spec_list()[i],
    {
        let mut out: Vec<&Proposal> = Vec::new();
        let mut i: usize = 0;
        while i < self.proposals.len()
            invariant
                0 <= i <= self.proposals@.len(),
                out@.len() == i,
                forall|j: int| 0 <= j < i ==> (#[trigger] out@[j])@ == self.proposals@[j]@,
            decreases self.proposals@.len() - i,
        {
            out.push(&self.proposals[i]);
            i = i + 1;
        }
        out
    }

    /// The pending and active proposals, in the order they were added.
    pub fn get_active_proposals(&self) -> (r: Vec<&Proposal>)
        ensures
            r@.map_values(|p: &Proposal| p@) == self.spec_list().filter(|p: ProposalView| is_open_status(p.status)),
    {
        let ghost pred = |p: ProposalView| is_open_status(p.status);
        let mut out: Vec<&Proposal> = Vec::new();
        let mut i: usize = 0;
        while i < self.proposals.len()
            invariant
                0 <= i <= self.proposals@.len(),
                forall|p: ProposalView| #[trigger] pred(p) == is_open_status(p.status),
                out@.map_values(|p: &Proposal| p@) == self.spec_list().take(i as int).filter(pred),
            decreases self.proposals@.len() - i,
        {
            let ghost before = out@;
            proof {
                reveal_with_fuel(Seq::filter, 1);
                assert(self.spec_list().take(i + 1).drop_last() =~= self.spec_list().take(i as int));
                assert(self.spec_list()[i as int] == self.proposals@[i as int]@);
            }
            let st = self.proposals[i].status;
            if st == ProposalStatus::Pending || st == ProposalStatus::Active {
                out.push(&self.proposals[i]);
                assert(out@.map_values(|p: &Proposal| p@) =~= before.map_values(|p: &Proposal| p@).push(self.proposals@[i as int]@));
            }
            i = i + 1;
        }
        assert(self.spec_list().take(self.proposals@.len() as int) =~= self.spec_list());
        out
    }

    /// The proposals of one creator, in the order they were added.
    pub fn get_proposals_by_creator(&self, creator: &Address) -> (r: Vec<&Proposal>)
        ensures
            r@.map_values(|p: &Proposal| p@) == self.spec_list().filter(|p: ProposalView| p.creator == creator@),
    {
        let ghost pred = |p: ProposalView| p.creator == creator@;
        let mut out: Vec<&Proposal> = Vec::new();
        let mut i: usize = 0;
        while i < self.proposals.len()
            invariant
                0 <= i <= self.proposals@.len(),
                forall|p: ProposalView| #[trigger] pred(p) == (p.creator == creator@),
                out@.map_values(|p: &Proposal| p@) == self.spec_list().take(i as int).filter(pred),
            decreases self.proposals@.len() - i,
        {
            let ghost before = out@;
            proof {
                reveal_with_fuel(Seq::filter, 1);
                assert(self.spec_list().take(i + 1).drop_last() =~= self.spec_list().take(i as int));
                assert(self.spec_list()[i as int] == self.proposals@[i as int]@);
            }
            if self.proposals[i].creator.same_as(creator) {
                out.push(&self.proposals[i]);
                assert(out@.map_values(|p: &Proposal| p@) =~= before.map_values(|p: &Proposal| p@).push(self.proposals@[i as int]@));
            }
            i = i + 1;
        }
        assert(self.spec_list().take(self.proposals@.len() as int) =~= self.spec_list());
        out
    }

    pub fn get_next_proposal_id(&self) -> (r: u64)
        ensures
            r == self.spec_next_id(),
    {
        self.next_proposal_id
    }

    /// Removes the proposals created `older_than` milliseconds or more
    /// before clock reading `now`; returns how many left.
    pub fn cleanup_old_proposals_at(&mut self, older_than: u64, now: u64) -> (r: Result<usize, GovernanceError>)
        requires
            old(self).wf(),
            forall|i: int| 0 <= i < old(self).spec_list().len() ==> (#[trigger] old(self).spec_list()[i]).created_at <= now,
        ensures
            final(self).wf(),
            final(self).spec_next_id() == old(self).spec_next_id(),
            final(self).spec_list() == old(self).spec_list().filter(|p: ProposalView| now - p.created_at < older_than),
            r == Ok::<usize, GovernanceError>((old(self).spec_list().len() - final(self).spec_list().len()) as usize),
    {
        let ghost pred = |p: ProposalView| now - p.created_at < older_than;
        let ghost old_list = self.spec_list();
        let mut kept: Vec<Proposal> = Vec::new();
        let ghost mut src: Seq<int> = Seq::empty();
        let mut removed: usize = 0;
        let total = self.proposals.len();
        assert(old_list.len() == total);
        assert(self.proposals@.map_values(|p: Proposal| p@) =~= old_list.skip(0));
        assert(old_list.take(0).filter(pred) =~= Seq::<ProposalView>::empty()) by {
            reveal_with_fuel(Seq::filter, 1);
        }
        while self.proposals.len() > 0
            invariant
                old_list.len() <= usize::MAX,
                forall|p: ProposalView| #[trigger] pred(p) == (now - p.created_at < older_than),
                old_list == old(self).spec_list(),
                self.next_proposal_id == old(self).next_proposal_id,
                self.proposals@.len() + kept@.len() + removed == old_list.len(),
                self.proposals@.map_values(|p: Proposal| p@) == old_list.skip(old_list.len() - self.proposals@.len()),
                kept@.map_values(|p: Proposal| p@) == old_list.take(old_list.len() - self.proposals@.len()).filter(pred),
                forall|i: int| 0 <= i < old_list.len() ==> (#[trigger] old_list[i]).created_at <= now,
                src.len() == kept@.len(),
                forall|k: int| 0 <= k < src.len() ==> 0 <= #[trigger] src[k] < old_list.len() - self.proposals@.len(),
                forall|k: int, l: int| 0 <= k < l < src.len() ==> src[k] < src[l],
                forall|k: int| 0 <= k < src.len() ==> kept@[k]@ == old_list[#[trigger] src[k]],
            decreases self.proposals@.len(),
        {
            let ghost consumed = old_list.len() - self.proposals@.len();
            let ghost prev = self.proposals@;
            let p = self.proposals.remove(0);
            proof {
                assert(self.proposals@ =~= prev.skip(1));
                assert(old_list.skip(consumed).skip(1) =~= old_list.skip(consumed + 1));
                reveal_with_fuel(Seq::filter, 1);
                assert(old_list[consumed] == p@) by {
                    assert(old_list.skip(consumed)[0] == old_list[consumed]);
                }
                assert(old_list.take(consumed + 1).drop_last() =~= old_list.take(consumed));
                assert(self.proposals@.map_values(|p: Proposal| p@) =~= old_list.skip(consumed + 1));
            }
            if now - p.created_at < older_than {
                let ghost before = kept@;
                kept.push(p);
                proof {
                    assert(kept@.map_values(|p: Proposal| p@) =~= before.map_values(|p: Proposal| p@).push(old_list[consumed]));
                    src = src.push(consumed);
                }
            } else {
                removed = removed + 1;
            }
        }
        proof {
            assert(old_list.take(old_list.len() as int) =~= old_list);
        }
        self.proposals = kept;
        proof {
            assert forall|a: int, b: int| 0 <= a < b < self.spec_list().len() implies (proposal_key())(self.spec_list()[a])
                != (proposal_key())(self.spec_list()[b]) by {
                assert(self.spec_list()[a] == old_list[src[a]]);
                assert(self.spec_list()[b] == old_list[src[b]]);
            }
            assert forall|i: int| 0 <= i < self.proposals@.len() implies (#[trigger] self.proposals@[i]).id < self.next_proposal_id by {
                assert(self.proposals@[i]@ == old_list[src[i]]);
                assert(old_list[src[i]] == old(self).proposals@[src[i]]@);
            }
        }
        Ok(removed)
    }

    /// `kept` is what a cleanup at clock reading `now` leaves: no proposal is
    /// stamped after `now`, and those created less than `older_than`
    /// milliseconds before it stay, in order.
    pub open spec fn cleaned_as_of(&self, older_than: u64, now: u64, kept: Seq<ProposalView>) -> bool {
        &&& forall|i: int| 0 <= i < self.spec_list().len() ==> (#[trigger] self.spec_list()[i]).created_at <= now
        &&& kept == self.spec_list().filter(|p: ProposalView| now - p.created_at < older_than)
    }

    /// Removes the proposals created `older_than` milliseconds or more ago
    /// (a proposal stamped after the clock reading counts as new).
    pub fn cleanup_old_proposals(&mut self, older_than: u64) -> (r: Result<usize, GovernanceError>)
        requires
            old(self).wf(),
        ensures
            final(self).wf(),
            final(self).spec_next_id() == old(self).spec_next_id(),
            exists|now: u64| #[trigger] old(self).cleaned_as_of(older_than, now, final(self).spec_list()),
            r == Ok::<usize, GovernanceError>((old(self).spec_list().len() - final(self).spec_list().len()) as usize),
    {
        let now = now_millis();
        let mut newest: u64 = now;
        let mut i: usize = 0;
        while i < self.proposals.len()
            invariant
                0 <= i <= self.proposals@.len(),
                now <= newest,
                forall|j: int| 0 <= j < i ==> (#[trigger] self.proposals@[j]).created_at <= newest,
            decreases self.proposals@.len() - i,
        {
            if self.proposals[i].created_at > newest {
                newest = self.proposals[i].created_at;
            }
            i = i + 1;
        }
        assert forall|j: int| 0 <= j < self.spec_list().len() implies (#[trigger] self.spec_list()[j]).created_at <= newest by {
            assert(self.spec_list()[j] == self.proposals@[j]@);
        }
        let r = self.cleanup_old_proposals_at(older_than, newest);
        assert(old(self).cleaned_as_of(older_than, newest, self.spec_list()));
        r
    }
}

} // verus!
