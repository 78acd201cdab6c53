//! The protocol handler.
use std::collections::HashMap;
use std::collections::HashSet;
use vstd::prelude::*;
use vstd::std_specs::iter::IteratorSpec;

use crate::action::{said, Action, ActionView, Misbehavior};
use crate::key_table::{KeySet, KeyTable};
use crate::knowledge::Knowledge;
use crate::message::{Message, MessageView};
use crate::model::{collations_to, first_askable, lemma_collators_stay_apart, lemma_listed_len,
    CurrentConsensus, FlightView, PeerInfo, ProtocolView, RequestView, Step};
use crate::primitives::{same_id, AccountId, BlockData, CandidateReceipt, Collation,
    CollatorAction, FullStatus, Header, H256, NetworkMessage, ParaId, PeerId, RequestId, Role,
    SessionKey, SignedStatement};
use crate::status::Status;

verus! {

broadcast use vstd::std_specs::hash::group_hash_axioms;

/// What the network layer is given to send a message: its encoded form.
pub fn send_polkadot_message(message: &Message) -> (r: NetworkMessage)
    requires
        message@.encodable(),
    ensures
        match r {
            NetworkMessage::ChainSpecific(raw) => raw@ == message@.encoding(),
            _ => false,
        },
{
    NetworkMessage::ChainSpecific(message.encode())
}

/// A request for block data.
struct BlockDataRequest<S> {
    attempted_peers: KeySet,
    consensus_parent: H256,
    candidate_hash: H256,
    block_data_hash: H256,
    sender: S,
}

impl<S> View for BlockDataRequest<S> {
    type V = RequestView<S>;

    closed spec fn view(&self) -> RequestView<S> {
        RequestView {
            attempted_peers: self.attempted_peers@,
            consensus_parent: self.consensus_parent,
            candidate_hash: self.candidate_hash,
            block_data_hash: self.block_data_hash,
            sender: self.sender,
        }
    }
}

/// A request that a peer has been asked.
struct Flight<S> {
    peer: PeerId,
    request: BlockDataRequest<S>,
}

impl<S> View for Flight<S> {
    type V = FlightView<S>;

    closed spec fn view(&self) -> FlightView<S> {
        FlightView { peer: self.peer, request: self.request@ }
    }
}

/// The state of the protocol. `S` is the sending end on which block data is awaited.
///
/// The knowledge of the live session is shared with others and kept outside; a step that looks
/// into it borrows it. While no session is live it is not looked at.
pub struct PolkadotProtocol<S> {
    peers: HashMap<PeerId, PeerInfo>,
    collating_for: Option<(AccountId, ParaId)>,
    validators: KeyTable<PeerId>,
    live_consensus: Option<CurrentConsensus>,
    in_flight: HashMap<RequestId, Flight<S>>,
    pending: Vec<BlockDataRequest<S>>,
    next_req_id: u64,
}

impl<S> View for PolkadotProtocol<S> {
    type V = ProtocolView<S>;

    closed spec fn view(&self) -> ProtocolView<S> {
        ProtocolView {
            peers: self.peers@,
            collating_for: self.collating_for,
            validators: self.validators@,
            live_consensus: self.live_consensus,
            in_flight: self.in_flight@.map_values(|flight: Flight<S>| flight@),
            pending: self.pending@.map_values(|request: BlockDataRequest<S>| request@),
            next_req_id: self.next_req_id as nat,
        }
    }
}

impl<S> PolkadotProtocol<S> {
    /// The tables are in order, and the invariants of the state hold.
    pub closed spec fn wf(&self) -> bool {
        self.validators.wf() && self@.wf()
    }

    /// A handler in order has a state in order, with finitely many requests in flight.
    pub proof fn lemma_wf(&self)
        requires
            self.wf(),
        ensures
            self@.wf(),
            self@.in_flight.dom().finite(),
    {
        assert(self@.in_flight.dom() =~= self.in_flight@.dom());
    }

    /// The first validator in `knows` that is connected and has not been asked, with its peer.
    fn next_validator(&self, knows: &Vec<SessionKey>, attempted: &KeySet) -> (r: Option<
        (SessionKey, PeerId),
    >)
        requires
            self.validators.wf(),
        ensures
            match r {
                Some((key, peer)) => first_askable(knows@, self.validators@, attempted@) == Some(
                    key,
                ) && self.validators@.contains_key(key) && self.validators@[key] == peer,
                None => first_askable(knows@, self.validators@, attempted@) is None,
            },
    {
        let mut i: usize = 0;
        assert(knows@.skip(0) =~= knows@);
        while i < knows.len()
            invariant
                self.validators.wf(),
                i <= knows.len(),
                first_askable(knows@.skip(i as int), self.validators@, attempted@)
                    == first_askable(knows@, self.validators@, attempted@),
            decreases knows.len() - i,
        {
            assert(knows@.skip(i as int)[0] == knows@[i as int]);
            assert(knows@.skip(i as int).drop_first() =~= knows@.skip(i + 1));
            match self.validators.get(&knows[i]) {
                Some(peer) => {
                    if !attempted.contains(&knows[i]) {
                        return Some((knows[i], *peer));
                    }
                },
                None => {},
            }
            i = i + 1;
        }
        None
    }

    /// Deals with one request.
    fn dispatch_request(&mut self, knowledge: &Knowledge, request: BlockDataRequest<S>) -> (r:
        Option<Action<S>>)
        requires
            old(self).wf(),
            knowledge.wf(),
            old(self)@.next_req_id < u64::MAX,
        ensures
            final(self).wf(),
            taken(final(self)@, listed(r)) == old(self)@.dispatch_one(knowledge@, request@),
    {
        let ghost step = self@.dispatch_one(knowledge@, request@);
        match &self.live_consensus {
            Some(consensus) => {
                if !same_id(&request.consensus_parent, &consensus.parent_hash) {
                    assert(said(listed(None::<Action<S>>)) =~= step.actions);
                    return None;
                }
            },
            None => {
                assert(said(listed(None::<Action<S>>)) =~= step.actions);
                return None;
            },
        }
        if let Some(entry) = knowledge.entry(&request.candidate_hash) {
            if let Some(data) = &entry.block_data {
                let action = Action::AnswerBlockData(request.sender, data.duplicate());
                assert(said(listed(Some(action))) =~= step.actions);
                return Some(action);
            }
            if let Some((key, peer)) = self.next_validator(
                &entry.knows_block_data,
                &request.attempted_peers,
            ) {
                let mut request = request;
                let _ = request.attempted_peers.insert(key);
                let id = self.next_req_id;
                self.next_req_id = id + 1;
                let action = Action::SendMessage(
                    peer,
                    Message::RequestBlockData(id, request.candidate_hash),
                );
                self.in_flight.insert(id, Flight { peer, request });
                proof {
                    assert(self@.in_flight =~= step.state.in_flight);
                    assert(self@ =~= step.state);
                    assert(said(listed(Some(action))) =~= step.actions);
                    lemma_collators_stay_apart(old(self)@, self@);
                }
                return Some(action);
            }
        }
        self.pending.push(request);
        proof {
            assert(self@.pending =~= step.state.pending);
            assert(self@ =~= step.state);
            assert(said(listed(None::<Action<S>>)) =~= step.actions);
            lemma_collators_stay_apart(old(self)@, self@);
        }
        None
    }

    /// Deals with the pending requests: those of another session are dropped, those whose block
    /// data is here are answered, and the others go to the first validator that has the data and
    /// has not been asked. What nobody can be asked for stays pending.
    pub fn dispatch_pending_requests(&mut self, knowledge: &Knowledge) -> (r: Vec<Action<S>>)
        requires
            old(self).wf(),
            knowledge.wf(),
            old(self)@.numbers_for(0),
        ensures
            final(self).wf(),
            taken(final(self)@, r@) == old(self)@.dispatch(knowledge@),
    {
        let mut requests: Vec<BlockDataRequest<S>> = Vec::new();
        std::mem::swap(&mut requests, &mut self.pending);
        let mut actions: Vec<Action<S>> = Vec::new();
        let ghost start = self@;
        let ghost all = requests@.map_values(|request: BlockDataRequest<S>| request@);
        proof {
            assert(all =~= old(self)@.pending);
            assert(start =~= ProtocolView { pending: seq![], ..old(self)@ });
            lemma_collators_stay_apart(old(self)@, self@);
            assert(all.take(0) =~= seq![]);
            assert(said(actions@) =~= seq![]);
        }
        for request in it: requests
            invariant
                all == it.seq().map_values(|request: BlockDataRequest<S>| request@),
                self.wf(),
                knowledge.wf(),
                start.next_req_id + all.len() <= u64::MAX,
                self@.next_req_id <= start.next_req_id + it.index(),
                taken(self@, actions@) == start.dispatch_each(
                    knowledge@,
                    all.take(it.index() as int),
                ),
        {
            let ghost i = it.index() as int;
            let ghost before = taken(self@, actions@);
            proof {
                assert(all.take(i + 1).drop_last() =~= all.take(i));
                assert(all.take(i + 1).last() == request@);
            }
            let action = self.dispatch_request(knowledge, request);
            let ghost step = taken(self@, listed(action));
            match action {
                Some(action) => actions.push(action),
                None => {},
            }
            assert(said(actions@) =~= before.actions + step.actions);
        }
        assert(all.take(all.len() as int) =~= all);
        actions
    }

    /// Instantiate a polkadot protocol handler.
    pub fn new(collating_for: Option<(AccountId, ParaId)>) -> (r: Self)
        ensures
            r.wf(),
            r@ == ProtocolView::<S>::initial(collating_for),
    {
        let r = PolkadotProtocol {
            peers: HashMap::new(),
            collating_for,
            validators: KeyTable::new(),
            live_consensus: None,
            in_flight: HashMap::new(),
            pending: Vec::new(),
            next_req_id: 1,
        };
        assert(r@ =~= ProtocolView::<S>::initial(collating_for));
        r
    }

    /// Whether there are numbers left for every pending request and for so many more.
    pub fn has_numbers_for(&self, more: usize) -> (r: bool)
        ensures
            r == self@.numbers_for(more as nat),
    {
        let requests = self.pending.len() as u128 + more as u128;
        self.next_req_id as u128 + requests <= u64::MAX as u128
    }

    /// How many requests a peer has been asked and has not responded to.
    pub fn requests_to(&self, peer: PeerId) -> (r: usize)
        ensures
            r == self@.flights_to(peer).len(),
    {
        let order = self.flights_to(peer);
        proof {
            lemma_listed_len(self@, peer, order@);
        }
        order.len()
    }

    /// The connected peer behind a session key.
    pub fn validator_peer_id(&self, key: &SessionKey) -> (r: Option<PeerId>)
        requires
            self.wf(),
        ensures
            r == if self@.validators.contains_key(*key) {
                Some(self@.validators[*key])
            } else {
                None
            },
    {
        match self.validators.get(key) {
            Some(peer) => Some(*peer),
            None => None,
        }
    }

    /// Send a statement to a validator. It is gossiped, whoever it is for.
    pub fn send_statement(
        &self,
        _val: SessionKey,
        parent_hash: H256,
        statement: SignedStatement,
    ) -> (r: Action<S>)
        ensures
            r@ == ActionView::<S>::GossipMulticast(
                MessageView::Statement(parent_hash, statement@).encoding(),
                parent_hash,
            ),
    {
        let message = Message::Statement(parent_hash, statement);
        Action::GossipMulticast(message.encode(), parent_hash)
    }

    /// Fetch block data by candidate receipt. The data is awaited on `sender`.
    pub fn fetch_block_data(
        &mut self,
        candidate: &CandidateReceipt,
        relay_parent: H256,
        sender: S,
        knowledge: &Knowledge,
    ) -> (r: Vec<Action<S>>)
        requires
            old(self).wf(),
            knowledge.wf(),
            old(self)@.numbers_for(1),
        ensures
            final(self).wf(),
            taken(final(self)@, r@) == old(self)@.fetch(
                knowledge@,
                *candidate,
                relay_parent,
                sender,
            ),
    {
        self.pending.push(
            BlockDataRequest {
                attempted_peers: KeySet::new(),
                consensus_parent: relay_parent,
                candidate_hash: candidate.hash,
                block_data_hash: candidate.block_data_hash,
                sender,
            },
        );
        proof {
            let request = RequestView {
                attempted_peers: Set::empty(),
                consensus_parent: relay_parent,
                candidate_hash: candidate.hash,
                block_data_hash: candidate.block_data_hash,
                sender,
            };
            assert(self@.pending =~= old(self)@.pending.push(request));
            assert(self@ =~= ProtocolView {
                pending: old(self)@.pending.push(request),
                ..old(self)@
            });
            lemma_collators_stay_apart(old(self)@, self@);
        }
        self.dispatch_pending_requests(knowledge)
    }

    /// Note new consensus session. Where the session key of this node changes, validators and
    /// collators are told.
    pub fn new_consensus(&mut self, consensus: CurrentConsensus) -> (r: Vec<Action<S>>)
        requires
            old(self).wf(),
        ensures
            final(self).wf(),
            exists|told: Seq<PeerId>| #[trigger]
                old(self)@.tells(consensus, told) && taken(final(self)@, r@)
                    == old(self)@.new_consensus(consensus, told),
    {
        let changed = match &self.live_consensus {
            Some(before) => !same_id(&before.local_session_key, &consensus.local_session_key),
            None => true,
        };
        let mut actions: Vec<Action<S>> = Vec::new();
        let ghost mut told: Seq<PeerId> = seq![];
        if changed {
            let peers = self.key_holders();
            proof {
                told = peers@;
            }
            for peer in it: peers
                invariant
                    it.seq() == told,
                    actions@.len() == it.index(),
                    forall|i: int|
                        #![trigger actions@[i]]
                        0 <= i < it.index() ==> actions@[i]@ == ActionView::<S>::SendMessage(
                            told[i],
                            MessageView::SessionKey(consensus.local_session_key),
                        ),
            {
                actions.push(
                    Action::SendMessage(peer, Message::SessionKey(consensus.local_session_key)),
                );
            }
        }
        let before = match &self.live_consensus {
            Some(before) => Some(before.parent_hash),
            None => None,
        };
        self.live_consensus = Some(consensus);
        actions.push(Action::GossipCollectGarbage(before));
        proof {
            let step = old(self)@.new_consensus(consensus, told);
            assert(self@ =~= step.state);
            assert(said(actions@) =~= step.actions);
            assert(old(self)@.tells(consensus, told));
            lemma_collators_stay_apart(old(self)@, self@);
        }
        actions
    }

    /// The peers that are told the session key of this node.
    fn key_holders(&self) -> (r: Vec<PeerId>)
        ensures
            r@.no_duplicates(),
            r@.to_set() == self@.key_holders(),
    {
        let all = keys_of(&self.peers);
        let mut r: Vec<PeerId> = Vec::new();
        let mut i: usize = 0;
        while i < all.len()
            invariant
                i <= all.len(),
                all@.no_duplicates(),
                all@.to_set() == self.peers@.dom(),
                r@ == all@.take(i as int).filter(|p: PeerId| self@.key_holders().contains(p)),
            decreases all.len() - i,
        {
            let peer = all[i];
            proof {
                assert(all@.contains(peer));
                assert(self.peers@.dom().contains(peer));
                assert(all@.take(i + 1).drop_last() =~= all@.take(i as int));
                reveal(Seq::filter);
            }
            match self.peers.get(&peer) {
                Some(info) => {
                    if info.claimed_validator || info.collating_for.is_some() {
                        r.push(peer);
                    }
                },
                None => {},
            }
            i = i + 1;
        }
        proof {
            let holds = |p: PeerId| self@.key_holders().contains(p);
            assert(all@.take(i as int) =~= all@);
            lemma_filtered(all@, holds);
            assert(r@.to_set() =~= self@.key_holders()) by {
                assert forall|p: PeerId| r@.contains(p) == self@.key_holders().contains(p) by {
                    assert(all@.to_set().contains(p) == self.peers@.dom().contains(p));
                }
            }
        }
        r
    }

    /// A peer tells us its session key.
    pub fn on_session_key(&mut self, peer: PeerId, key: SessionKey, knowledge: &Knowledge) -> (r:
        Vec<Action<S>>)
        requires
            old(self).wf(),
            knowledge.wf(),
            old(self)@.numbers_for(0),
        ensures
            final(self).wf(),
            taken(final(self)@, r@) == old(self)@.session_key(knowledge@, peer, key),
    {
        let mut actions: Vec<Action<S>> = Vec::new();
        let mut info = match self.peers.get(&peer) {
            Some(info) => *info,
            None => {
                assert(said(actions@) =~= seq![]);
                return actions;
            },
        };
        if !info.claimed_validator {
            actions.push(Action::DisablePeer(peer, Misbehavior::KeyWithoutAuthority));
            assert(said(actions@) =~= old(self)@.session_key(knowledge@, peer, key).actions);
            return actions;
        }
        let before = info.validator_key;
        info.validator_key = Some(key);
        self.peers.insert(peer, info);
        if let Some(before) = before {
            let _ = self.validators.remove(&before);
            actions.push(Action::FreshKey(peer, before, key));
        }
        self.validators.insert(key, peer);
        let ghost first = said(actions@);
        proof {
            lemma_collators_stay_apart(old(self)@, self@);
        }
        let mut rest = self.dispatch_pending_requests(knowledge);
        let ghost rest_said = said(rest@);
        actions.append(&mut rest);
        assert(said(actions@) =~= first + rest_said);
        assert(taken(self@, actions@) =~= old(self)@.session_key(knowledge@, peer, key));
        actions
    }

    /// A peer responds to a request for block data. `data` is the data, with its hash.
    pub fn on_block_data(
        &mut self,
        peer: PeerId,
        req_id: RequestId,
        data: Option<(BlockData, H256)>,
        knowledge: &Knowledge,
    ) -> (r: Vec<Action<S>>)
        requires
            old(self).wf(),
            knowledge.wf(),
            old(self)@.numbers_for(1),
        ensures
            final(self).wf(),
            taken(final(self)@, r@) == old(self)@.block_data(
                knowledge@,
                peer,
                req_id,
                hashed_bytes(data),
            ),
    {
        let ghost step = self@.block_data(knowledge@, peer, req_id, hashed_bytes(data));
        let mut actions: Vec<Action<S>> = Vec::new();
        let expected = match self.in_flight.get(&req_id) {
            Some(flight) => flight.peer == peer,
            None => false,
        };
        let flight = if expected {
            self.in_flight.remove(&req_id)
        } else {
            None
        };
        let request = match flight {
            Some(flight) => flight.request,
            None => {
                actions.push(Action::DisablePeer(peer, Misbehavior::UnexpectedBlockData));
                assert(said(actions@) =~= step.actions);
                return actions;
            },
        };
        proof {
            assert(self@.in_flight =~= old(self)@.in_flight.remove(req_id));
            lemma_collators_stay_apart(old(self)@, self@);
        }
        if let Some((data, hash)) = data {
            if same_id(&hash, &request.block_data_hash) {
                actions.push(Action::AnswerBlockData(request.sender, data));
                assert(said(actions@) =~= step.actions);
                assert(self@ =~= step.state);
                return actions;
            }
        }
        self.pending.push(request);
        proof {
            let landed = ProtocolView {
                in_flight: old(self)@.in_flight.remove(req_id),
                ..old(self)@
            };
            assert(self@.pending =~= landed.pending.push(request@));
            assert(self@ =~= ProtocolView { pending: landed.pending.push(request@), ..landed });
            lemma_collators_stay_apart(old(self)@, self@);
        }
        self.dispatch_pending_requests(knowledge)
    }

    /// A validator sends us (a collator) a new role.
    pub fn on_new_role(&self, peer: PeerId, role: Role) -> (r: Option<Action<S>>)
        ensures
            viewed(r) == self@.new_role(peer, role),
    {
        match self.peers.get(&peer) {
            Some(info) => match info.validator_key {
                Some(key) => Some(Action::NoteValidatorRole(peer, key, role)),
                None => Some(Action::DisablePeer(peer, Misbehavior::RoleWithoutKey)),
            },
            None => None,
        }
    }

    /// The connected peer that collates under an account.
    pub fn collator_peer_id(&self, account: AccountId) -> (r: Option<PeerId>)
        requires
            self.wf(),
        ensures
            r == self@.collator_peer(account),
    {
        let all = keys_of(&self.peers);
        let mut i: usize = 0;
        while i < all.len()
            invariant
                i <= all.len(),
                self.wf(),
                all@.to_set() == self.peers@.dom(),
                forall|j: int| 0 <= j < i ==> !self@.collates_as(#[trigger] all@[j], account),
            decreases all.len() - i,
        {
            let peer = all[i];
            proof {
                assert(all@.contains(peer));
                assert(self.peers@.dom().contains(peer));
            }
            if let Some(info) = self.peers.get(&peer) {
                if let Some((collator, _)) = &info.collating_for {
                    if same_id(collator, &account) {
                        assert(self@.collates_as(peer, account));
                        return Some(peer);
                    }
                }
            }
            i = i + 1;
        }
        proof {
            assert forall|p: PeerId| !#[trigger] self@.collates_as(p, account) by {
                if self@.collates_as(p, account) {
                    assert(all@.to_set().contains(p));
                    let j = choose|j: int| 0 <= j < all@.len() && all@[j] == p;
                    assert(!self@.collates_as(all@[j], account));
                }
            }
        }
        None
    }

    /// Disconnect a collator by account.
    pub fn disconnect_bad_collator(&self, account: AccountId) -> (r: Option<Action<S>>)
        requires
            self.wf(),
        ensures
            viewed(r) == self@.collator_action(CollatorAction::Disconnect(account)),
    {
        match self.collator_peer_id(account) {
            Some(peer) => Some(Action::DisablePeer(peer, Misbehavior::BadCollator)),
            None => None,
        }
    }

    /// The collator pool asks for these when it has been maintained.
    pub fn on_collator_actions(&self, wanted: Vec<CollatorAction>) -> (r: Vec<Action<S>>)
        requires
            self.wf(),
        ensures
            said(r@) == self@.collator_actions(wanted@),
    {
        let mut actions: Vec<Action<S>> = Vec::new();
        let mut i: usize = 0;
        assert(said(actions@) =~= seq![]);
        while i < wanted.len()
            invariant
                i <= wanted.len(),
                self.wf(),
                said(actions@) == self@.collator_actions(wanted@.take(i as int)),
            decreases wanted.len() - i,
        {
            let ghost before = said(actions@);
            proof {
                assert(wanted@.take(i + 1).drop_last() =~= wanted@.take(i as int));
            }
            let action = match wanted[i] {
                CollatorAction::Disconnect(account) => self.disconnect_bad_collator(account),
                CollatorAction::NewRole(account, role) => match self.collator_peer_id(account) {
                    Some(peer) => Some(self.on_collator_role(peer, role)),
                    None => None,
                },
            };
            match action {
                Some(action) => {
                    actions.push(action);
                    assert(said(actions@) =~= before.push(action@));
                },
                None => {},
            }
            i = i + 1;
        }
        assert(wanted@.take(i as int) =~= wanted@);
        actions
    }

    /// The collator pool gives a collator this role; the peer behind the collator is told.
    pub fn on_collator_role(&self, peer: PeerId, role: Role) -> (r: Action<S>)
        ensures
            r@ == ActionView::<S>::SendMessage(peer, MessageView::CollatorRole(role)),
    {
        Action::SendMessage(peer, Message::CollatorRole(role))
    }

    /// The collator pool has a new primary collator in place of one that is gone, or none.
    pub fn on_new_primary(&self, account: Option<AccountId>) -> (r: Option<Action<S>>)
        requires
            self.wf(),
        ensures
            viewed(r) == match account {
                Some(account) => self@.collator_action(
                    CollatorAction::NewRole(account, Role::Primary),
                ),
                None => None,
            },
    {
        match account {
            Some(account) => match self.collator_peer_id(account) {
                Some(peer) => Some(self.on_collator_role(peer, Role::Primary)),
                None => None,
            },
            None => None,
        }
    }

    /// We received a collation from a peer. `receipt` is what the collation's receipt says.
    pub fn on_collation(
        &self,
        from: PeerId,
        relay_parent: H256,
        receipt: &CandidateReceipt,
        collation: Collation,
    ) -> (r: Action<S>)
        ensures
            r@ == self@.collation(from, relay_parent, *receipt, collation@),
    {
        match self.peers.get(&from) {
            None => Action::DisconnectPeer(from),
            Some(info) => match &info.collating_for {
                None => Action::DisablePeer(from, Misbehavior::CollationWithoutIntent),
                Some((account, para)) => {
                    let structurally_valid = *para == receipt.parachain_index && same_id(
                        account,
                        &receipt.collator,
                    );
                    if structurally_valid && receipt.signature_valid {
                        Action::CollationReceived(*account, relay_parent, collation)
                    } else {
                        Action::DisablePeer(from, Misbehavior::MalformedCollation)
                    }
                },
            },
        }
    }

    /// A collation that a peer sent has been read: its receipt and the collation itself, or
    /// nothing if it is none.
    pub fn on_collation_opened(
        &self,
        from: PeerId,
        relay_parent: H256,
        opened: Option<(CandidateReceipt, Collation)>,
    ) -> (r: Action<S>)
        ensures
            r@ == match opened {
                Some((receipt, read)) => self@.collation(from, relay_parent, receipt, read@),
                None => ActionView::DisablePeer(from, Misbehavior::InvalidMessage),
            },
    {
        match opened {
            Some((receipt, read)) => self.on_collation(from, relay_parent, &receipt, read),
            None => Action::DisablePeer(from, Misbehavior::InvalidMessage),
        }
    }

    /// The encoded status of this node.
    pub fn status(&self) -> (r: Vec<u8>)
        ensures
            r@ == (Status { collating_for: self@.collating_for }).encoding(),
    {
        Status { collating_for: self.collating_for }.encode()
    }

    /// A peer connects. One whose status is no status counts as one that does not collate, and
    /// one that claims the account of a connected collator is sent away.
    pub fn on_connect(&mut self, peer: PeerId, status: FullStatus, knowledge: &Knowledge) -> (r:
        Vec<Action<S>>)
        requires
            old(self).wf(),
            knowledge.wf(),
            old(self)@.numbers_for(0),
        ensures
            final(self).wf(),
            taken(final(self)@, r@) == old(self)@.connect(
                knowledge@,
                peer,
                claim_of(status.chain_status@),
                status.roles,
            ),
    {
        let mut actions: Vec<Action<S>> = Vec::new();
        let claim = match Status::decode(status.chain_status.as_slice()).0 {
            Some(status) => status.collating_for,
            None => None,
        };
        let ghost step = self@.connect(knowledge@, peer, claim, status.roles);
        if let Some((account, para)) = claim {
            if self.collator_peer_id(account).is_some() {
                actions.push(Action::DisconnectPeer(peer));
                assert(said(actions@) =~= step.actions);
                return actions;
            }
            actions.push(Action::NewCollator(peer, account, para));
        }
        let send_key = status.roles.authority || claim.is_some();
        let info = PeerInfo {
            collating_for: claim,
            validator_key: None,
            claimed_validator: status.roles.authority,
        };
        self.peers.insert(peer, info);
        actions.push(Action::GossipNewPeer(peer, status.roles));
        if let (true, Some(consensus)) = (send_key, &self.live_consensus) {
            actions.push(
                Action::SendMessage(peer, Message::SessionKey(consensus.local_session_key)),
            );
        }
        let ghost first = said(actions@);
        proof {
            assert(self@ =~= ProtocolView {
                peers: old(self)@.peers.insert(peer, info),
                ..old(self)@
            });
            assert forall|p: PeerId, q: PeerId, a: AccountId| #[trigger]
                self@.collates_as(p, a) && #[trigger] self@.collates_as(q, a) implies p == q by {
                if p != peer {
                    assert(old(self)@.collates_as(p, a));
                }
                if q != peer {
                    assert(old(self)@.collates_as(q, a));
                }
            }
        }
        let mut rest = self.dispatch_pending_requests(knowledge);
        let ghost rest_said = said(rest@);
        actions.append(&mut rest);
        assert(said(actions@) =~= first + rest_said);
        assert(taken(self@, actions@) =~= step);
        actions
    }

    /// The numbers of the requests that a peer has been asked.
    fn flights_to(&self, peer: PeerId) -> (r: Vec<RequestId>)
        ensures
            self@.lists_flights(peer, r@),
    {
        let all = keys_of(&self.in_flight);
        let mut r: Vec<RequestId> = Vec::new();
        let mut i: usize = 0;
        while i < all.len()
            invariant
                i <= all.len(),
                all@.no_duplicates(),
                all@.to_set() == self.in_flight@.dom(),
                r@ == all@.take(i as int).filter(|id: RequestId| self@.awaits(peer, id)),
            decreases all.len() - i,
        {
            let id = all[i];
            proof {
                assert(all@.contains(id));
                assert(self.in_flight@.dom().contains(id));
                assert(all@.take(i + 1).drop_last() =~= all@.take(i as int));
                reveal(Seq::filter);
            }
            if let Some(flight) = self.in_flight.get(&id) {
                if flight.peer == peer {
                    r.push(id);
                }
            }
            i = i + 1;
        }
        proof {
            assert(all@.take(i as int) =~= all@);
            lemma_filtered(all@, |id: RequestId| self@.awaits(peer, id));
            assert(r@.to_set() =~= self@.flights_to(peer)) by {
                assert forall|id: RequestId| r@.contains(id) == self@.awaits(peer, id) by {
                    assert(all@.to_set().contains(id) == self.in_flight@.dom().contains(id));
                }
            }
        }
        r
    }

    /// A peer disconnects. What it was asked is dispatched again.
    pub fn on_disconnect(&mut self, peer: PeerId, knowledge: &Knowledge) -> (r: Vec<Action<S>>)
        requires
            old(self).wf(),
            knowledge.wf(),
            old(self)@.numbers_for(old(self)@.flights_to(peer).len()),
        ensures
            final(self).wf(),
            exists|order: Seq<RequestId>| #[trigger]
                old(self)@.lists_flights(peer, order) && taken(final(self)@, r@)
                    == old(self)@.disconnect(knowledge@, peer, order),
    {
        let order = self.flights_to(peer);
        let ghost step = self@.disconnect(knowledge@, peer, order@);
        let mut actions: Vec<Action<S>> = Vec::new();
        let info = match self.peers.remove(&peer) {
            Some(info) => info,
            None => {
                proof {
                    assert(self@ =~= old(self)@);
                    assert(said(actions@) =~= step.actions);
                    assert(old(self)@.lists_flights(peer, order@));
                }
                return actions;
            },
        };
        if let Some((account, _)) = info.collating_for {
            actions.push(Action::CollatorDisconnected(account));
        }
        if let Some(key) = info.validator_key {
            let _ = self.validators.remove(&key);
            actions.push(Action::ValidatorDisconnected(key));
        }
        assert(self@.flights_to(peer) =~= old(self)@.flights_to(peer));
        self.recall(peer, &order);
        actions.push(Action::GossipPeerDisconnected(peer));
        let ghost first = said(actions@);
        proof {
            assert(self@ =~= old(self)@.without_peer(peer, order@));
            lemma_collators_stay_apart(old(self)@, self@);
            lemma_listed_len(old(self)@, peer, order@);
        }
        let mut rest = self.dispatch_pending_requests(knowledge);
        let ghost rest_said = said(rest@);
        actions.append(&mut rest);
        proof {
            assert(said(actions@) =~= first + rest_said);
            assert(taken(self@, actions@) =~= step);
            assert(old(self)@.lists_flights(peer, order@));
        }
        actions
    }

    /// Takes the requests with the given numbers out of flight; they are pending again.
    fn recall(&mut self, peer: PeerId, order: &Vec<RequestId>)
        requires
            old(self)@.lists_flights(peer, order@),
        ensures
            final(self).validators == old(self).validators,
            final(self)@ == (ProtocolView {
                in_flight: old(self)@.in_flight.remove_keys(old(self)@.flights_to(peer)),
                pending: old(self)@.pending + order@.map_values(
                    |id: RequestId| old(self)@.in_flight[id].request,
                ),
                ..old(self)@
            }),
    {
        let ghost start = self@;
        let ghost requests = order@.map_values(|id: RequestId| start.in_flight[id].request);
        let mut i: usize = 0;
        proof {
            assert(self@.in_flight =~= start.in_flight.remove_keys(order@.take(0).to_set()));
            assert(self@.pending =~= start.pending + requests.take(0));
        }
        while i < order.len()
            invariant
                i <= order.len(),
                start == old(self)@,
                start.lists_flights(peer, order@),
                requests == order@.map_values(|id: RequestId| start.in_flight[id].request),
                self.validators == old(self).validators,
                self@ == (ProtocolView {
                    in_flight: start.in_flight.remove_keys(order@.take(i as int).to_set()),
                    pending: start.pending + requests.take(i as int),
                    ..start
                }),
            decreases order.len() - i,
        {
            let id = order[i];
            let ghost before = self@;
            let ghost held = self.in_flight@;
            proof {
                assert(order@.contains(id));
                assert(start.flights_to(peer).contains(id));
                assert(!order@.take(i as int).contains(id));
                assert(self@.in_flight.contains_key(id));
                assert(self@.in_flight[id] == held[id]@);
            }
            if let Some(flight) = self.in_flight.remove(&id) {
                self.pending.push(flight.request);
            }
            i = i + 1;
            proof {
                assert(self@.in_flight =~= before.in_flight.remove(id));
                assert(self@.pending =~= before.pending.push(start.in_flight[id].request));
                assert(order@.take(i as int) =~= order@.take(i - 1).push(id));
                assert(requests.take(i as int) =~= requests.take(i - 1).push(requests[i - 1]));
                assert(self@.pending =~= start.pending + requests.take(i as int));
                assert forall|k: RequestId|
                    order@.take(i as int).to_set().contains(k) == (k == id || order@.take(
                        i - 1,
                    ).to_set().contains(k)) by {
                    let shorter = order@.take(i - 1);
                    if shorter.contains(k) {
                        let c = choose|c: int| 0 <= c < shorter.len() && shorter[c] == k;
                        assert(order@.take(i as int)[c] == k);
                    }
                    if k == id {
                        assert(order@.take(i as int)[i - 1] == k);
                    }
                }
                assert(self@.in_flight =~= start.in_flight.remove_keys(
                    order@.take(i as int).to_set(),
                ));
                assert(self@ =~= ProtocolView {
                    in_flight: start.in_flight.remove_keys(order@.take(i as int).to_set()),
                    pending: start.pending + requests.take(i as int),
                    ..start
                });
            }
        }
        proof {
            assert(order@.take(i as int) =~= order@);
            assert(requests.take(i as int) =~= requests);
        }
    }

    /// Maintains the peers: what is old is forgotten, pending requests are dispatched, and the
    /// collator pool is maintained.
    pub fn maintain_peers(&mut self, knowledge: &Knowledge) -> (r: Vec<Action<S>>)
        requires
            old(self).wf(),
            knowledge.wf(),
            old(self)@.numbers_for(0),
        ensures
            final(self).wf(),
            taken(final(self)@, r@) == old(self)@.maintain(knowledge@),
    {
        let mut actions: Vec<Action<S>> = Vec::new();
        actions.push(Action::GossipCollectGarbage(None));
        actions.push(Action::CollatorsCollectGarbage(None));
        actions.push(Action::LocalCollectGarbage(None));
        let mut rest = self.dispatch_pending_requests(knowledge);
        let ghost rest_said = said(rest@);
        actions.append(&mut rest);
        actions.push(Action::MaintainCollators);
        assert(said(actions@) =~= old(self)@.maintain(knowledge@).actions);
        actions
    }

    /// A block has been imported: collations for it and before it are no longer wanted.
    pub fn on_block_imported(&self, hash: H256, header: &Header) -> (r: Vec<Action<S>>)
        ensures
            said(r@) == seq![
                ActionView::<S>::CollatorsCollectGarbage(Some(hash)),
                ActionView::<S>::LocalCollectGarbage(Some(header.parent_hash)),
            ],
    {
        let mut actions: Vec<Action<S>> = Vec::new();
        actions.push(Action::CollatorsCollectGarbage(Some(hash)));
        actions.push(Action::LocalCollectGarbage(Some(header.parent_hash)));
        assert(said(actions@) =~= seq![
            ActionView::<S>::CollatorsCollectGarbage(Some(hash)),
            ActionView::<S>::LocalCollectGarbage(Some(header.parent_hash)),
        ]);
        actions
    }

    /// The node stops.
    pub fn on_abort(&self) -> (r: Action<S>)
        ensures
            r@ == ActionView::<S>::GossipAbort,
    {
        Action::GossipAbort
    }

    /// Add a local collation. The local collations say which validators are due it.
    pub fn add_local_collation(
        &self,
        relay_parent: H256,
        targets: HashSet<SessionKey>,
        collation: Collation,
    ) -> (r: Action<S>)
        ensures
            r@ == ActionView::<S>::AddLocalCollation(relay_parent, targets@, collation@),
    {
        Action::AddLocalCollation(relay_parent, targets, collation)
    }

    /// A local collation has been added; `due` are the validators that are to get it now, each
    /// with its copy. Those that are connected are sent it; the others are passed over.
    pub fn on_collation_added(
        &self,
        relay_parent: H256,
        due: Vec<(SessionKey, Collation)>,
    ) -> (r: Vec<Action<S>>)
        requires
            self.wf(),
        ensures
            said(r@) == self@.local_collation(relay_parent, keyed_bytes(due@)),
    {
        let mut actions: Vec<Action<S>> = Vec::new();
        let ghost all = keyed_bytes(due@);
        assert(said(actions@) =~= seq![]);
        assert(all.take(0) =~= seq![]);
        for item in it: due
            invariant
                self.wf(),
                all == keyed_bytes(it.seq()),
                said(actions@) == self@.local_collation(relay_parent, all.take(it.index() as int)),
        {
            let ghost i = it.index() as int;
            let ghost before = said(actions@);
            let (key, collation) = item;
            proof {
                assert(all.take(i + 1).drop_last() =~= all.take(i));
                assert(all.take(i + 1).last() == (key, collation@));
            }
            if let Some(peer) = self.validators.get(&key) {
                let message = Message::Collation(relay_parent, collation);
                let action = Action::SendMessage(*peer, message);
                actions.push(action);
                assert(said(actions@) =~= before.push(action@));
            }
        }
        assert(all.take(all.len() as int) =~= all);
        actions
    }

    /// The local collations that a validator is due, each with its relay parent, are sent to the
    /// peer behind it.
    pub fn on_collations_due(&self, peer: PeerId, due: Vec<(H256, Collation)>) -> (r: Vec<
        Action<S>,
    >)
        ensures
            said(r@) == collations_to::<S>(peer, keyed_bytes(due@)),
    {
        let mut actions: Vec<Action<S>> = Vec::new();
        let ghost all = keyed_bytes(due@);
        for item in it: due
            invariant
                all == keyed_bytes(it.seq()),
                actions@.len() == it.index(),
                forall|i: int|
                    #![trigger actions@[i]]
                    0 <= i < it.index() ==> actions@[i]@ == collations_to::<S>(peer, all)[i],
        {
            let (relay_parent, collation) = item;
            actions.push(Action::SendMessage(peer, Message::Collation(relay_parent, collation)));
        }
        assert(said(actions@) =~= collations_to::<S>(peer, all));
        actions
    }

    /// A peer sends a message of the network layer.
    ///
    /// `read_len` is how many bytes the reader of the payload takes off the bytes that
    /// `Message::unread` gives, or nothing if there are none or it can read none.
    pub fn on_message(
        &mut self,
        peer: PeerId,
        message: NetworkMessage,
        read_len: Option<usize>,
        knowledge: &Knowledge,
    ) -> (r: Vec<Action<S>>)
        requires
            old(self).wf(),
            knowledge.wf(),
            match message {
                NetworkMessage::ChainSpecific(raw) => old(self)@.numbers_for_bytes(raw@, read_len),
                _ => true,
            },
        ensures
            final(self).wf(),
            taken(final(self)@, r@) == match message {
                NetworkMessage::BftMessage(message) => old(self)@.just(
                    ActionView::GossipBftMessage(peer, message@),
                ),
                NetworkMessage::ChainSpecific(raw) => old(self)@.chain_specific(
                    knowledge@,
                    peer,
                    raw@,
                    read_len,
                ),
                NetworkMessage::Other => old(self)@.idle(),
            },
    {
        let mut actions: Vec<Action<S>> = Vec::new();
        match message {
            NetworkMessage::BftMessage(message) => {
                let action = Action::GossipBftMessage(peer, message);
                actions.push(action);
                assert(said(actions@) =~= seq![action@]);
            },
            NetworkMessage::ChainSpecific(raw) => match Message::decode(
                raw.as_slice(),
                read_len,
            ).0 {
                Some(message) => {
                    return self.on_polkadot_message(peer, raw, message, knowledge);
                },
                None => {
                    let action = Action::DisablePeer(peer, Misbehavior::InvalidMessage);
                    actions.push(action);
                    assert(said(actions@) =~= seq![action@]);
                },
            },
            NetworkMessage::Other => {
                assert(said(actions@) =~= seq![]);
            },
        }
        actions
    }

    /// A peer sends a message of this protocol; `raw` is what it was read from.
    pub fn on_polkadot_message(
        &mut self,
        peer: PeerId,
        raw: Vec<u8>,
        message: Message,
        knowledge: &Knowledge,
    ) -> (r: Vec<Action<S>>)
        requires
            old(self).wf(),
            knowledge.wf(),
            old(self)@.numbers_for_message(message@),
        ensures
            final(self).wf(),
            taken(final(self)@, r@) == old(self)@.message(knowledge@, peer, raw@, message@),
    {
        let ghost step = self@.message(knowledge@, peer, raw@, message@);
        let mut actions: Vec<Action<S>> = Vec::new();
        match message {
            Message::Statement(parent_hash, _) => {
                actions.push(Action::GossipChainSpecific(peer, raw, parent_hash));
            },
            Message::SessionKey(key) => {
                return self.on_session_key(peer, key, knowledge);
            },
            Message::RequestBlockData(req_id, candidate) => {
                let data = if self.live_consensus.is_some() {
                    knowledge.block_data(&candidate)
                } else {
                    None
                };
                actions.push(Action::SendMessage(peer, Message::BlockData(req_id, data)));
            },
            Message::BlockData(req_id, Some(data)) => {
                actions.push(Action::HashBlockData(peer, req_id, data));
            },
            Message::BlockData(req_id, None) => {
                return self.on_block_data(peer, req_id, None, knowledge);
            },
            Message::CollatorRole(role) => {
                if let Some(action) = self.on_new_role(peer, role) {
                    actions.push(action);
                }
            },
            Message::Collation(relay_parent, collation) => {
                actions.push(Action::OpenCollation(peer, relay_parent, collation));
            },
        }
        assert(said(actions@) =~= step.actions);
        actions
    }
}

/// The account and the parachain that the bytes of a status claim.
pub open spec fn claim_of(chain_status: Seq<u8>) -> Option<(AccountId, ParaId)> {
    match Status::announced(chain_status) {
        Some(status) => status.collating_for,
        None => None,
    }
}

/// What collations hold, each with the identifier that it goes with.
pub open spec fn keyed_bytes(items: Seq<([u8; 32], Collation)>) -> Seq<([u8; 32], Seq<u8>)> {
    items.map_values(|item: ([u8; 32], Collation)| (item.0, item.1@))
}

/// What block data with its hash holds.
pub open spec fn hashed_bytes(data: Option<(BlockData, H256)>) -> Option<(Seq<u8>, H256)> {
    match data {
        Some((data, hash)) => Some((data@, hash)),
        None => None,
    }
}

/// What an action that may be missing says.
pub open spec fn viewed<S>(action: Option<Action<S>>) -> Option<ActionView<S>> {
    match action {
        Some(action) => Some(action@),
        None => None,
    }
}

/// The keys of a map, in some order.
fn keys_of<K: Copy + Eq + std::hash::Hash, V>(map: &HashMap<K, V>) -> (r: Vec<K>)
    requires
        vstd::std_specs::hash::obeys_key_model::<K>(),
    ensures
        r@.no_duplicates(),
        r@.to_set() == map@.dom(),
{
    let mut r: Vec<K> = Vec::new();
    let ghost all = map.keys().remaining().unref();
    for key in it: map.keys()
        invariant
            it.seq().unref() == all,
            r@ == all.take(it.index() as int),
    {
        r.push(*key);
        assert(r@ =~= all.take(it.index() + 1));
    }
    assert(all.take(all.len() as int) =~= all);
    r
}

/// What filtering keeps of a list without duplicates.
proof fn lemma_filtered<T>(list: Seq<T>, keep: spec_fn(T) -> bool)
    requires
        list.no_duplicates(),
    ensures
        list.filter(keep).no_duplicates(),
        forall|x: T| #[trigger] list.filter(keep).contains(x) <==> list.contains(x) && keep(x),
    decreases list.len(),
{
    reveal(Seq::filter);
    if list.len() > 0 {
        let most = list.drop_last();
        lemma_filtered(most, keep);
        assert forall|x: T| #[trigger] list.filter(keep).contains(x) <==> list.contains(x)
            && keep(x) by {
            assert(list =~= most.push(list.last()));
            assert(list.contains(x) <==> most.contains(x) || x == list.last()) by {
                if most.contains(x) {
                    let c = choose|c: int| 0 <= c < most.len() && most[c] == x;
                    assert(list[c] == x);
                }
            }
            let f = most.filter(keep);
            if keep(list.last()) {
                assert(f.push(list.last()).contains(x) <==> f.contains(x) || x == list.last())
                    by {
                    if f.contains(x) {
                        let c = choose|c: int| 0 <= c < f.len() && f[c] == x;
                        assert(f.push(list.last())[c] == x);
                    }
                    if x == list.last() {
                        assert(f.push(list.last())[f.len() as int] == x);
                    }
                }
            }
        }
        assert(!most.contains(list.last()));
        assert(!most.filter(keep).contains(list.last()));
    }
}

/// The step that ends in a state, with the actions that it asks for.
pub open spec fn taken<S>(state: ProtocolView<S>, actions: Seq<Action<S>>) -> Step<S> {
    Step { state, actions: said(actions) }
}

/// An action that may be missing, as a list.
pub open spec fn listed<S>(action: Option<Action<S>>) -> Seq<Action<S>> {
    match action {
        Some(action) => seq![action],
        None => seq![],
    }
}

} // verus!
