//! The protocol as a mathematical state machine.
//!
//! A state is a [`ProtocolView`]. What an event does to it is a [`Step`]: the state that comes
//! after and the actions that are to be done, in their order.
use vstd::prelude::*;

use crate::action::{ActionView, Misbehavior};
use crate::knowledge::{block_data_of, EntryView};
use crate::message::MessageView;
use crate::primitives::{AccountId, CandidateReceipt, CollatorAction, H256, ParaId, PeerId,
    RequestId, Role, Roles, SessionKey};

verus! {

/// A connected peer.
#[derive(Clone, Copy)]
pub struct PeerInfo {
    /// The account and the parachain that the peer collates for, if it does.
    pub collating_for: Option<(AccountId, ParaId)>,
    /// The session key that the peer has last sent.
    pub validator_key: Option<SessionKey>,
    /// Whether the peer claims to be a validator.
    pub claimed_validator: bool,
}

/// The consensus session that is live.
#[derive(Clone, Copy)]
pub struct CurrentConsensus {
    /// The block that the session builds on.
    pub parent_hash: H256,
    /// The key of this node in the session.
    pub local_session_key: SessionKey,
}

/// A request for block data.
#[verifier::ext_equal]
pub struct RequestView<S> {
    /// The validators that have been asked.
    pub attempted_peers: Set<SessionKey>,
    /// The parent block of the session that the request belongs to.
    pub consensus_parent: H256,
    /// The candidate whose block data is wanted.
    pub candidate_hash: H256,
    /// The hash of the block data.
    pub block_data_hash: H256,
    /// Where the block data is awaited.
    pub sender: S,
}

/// A request that a peer has been asked.
#[verifier::ext_equal]
pub struct FlightView<S> {
    pub peer: PeerId,
    pub request: RequestView<S>,
}

/// A state of the protocol.
#[verifier::ext_equal]
pub struct ProtocolView<S> {
    /// The connected peers.
    pub peers: Map<PeerId, PeerInfo>,
    /// The account and the parachain that this node collates for, if it does.
    pub collating_for: Option<(AccountId, ParaId)>,
    /// The peers behind the session keys.
    pub validators: Map<SessionKey, PeerId>,
    /// The session that is live, if there is one.
    pub live_consensus: Option<CurrentConsensus>,
    /// The requests that wait for a peer's response.
    pub in_flight: Map<RequestId, FlightView<S>>,
    /// The requests that nobody has been found for.
    pub pending: Seq<RequestView<S>>,
    /// The number of the next request.
    pub next_req_id: nat,
}

/// A state and the actions that led to it.
#[verifier::ext_equal]
pub struct Step<S> {
    pub state: ProtocolView<S>,
    pub actions: Seq<ActionView<S>>,
}

/// What becomes of a request.
pub enum Route {
    /// Its session is over: it is dropped.
    Drop,
    /// The block data is here.
    Answer(Seq<u8>),
    /// The validator with this key is asked.
    Ask(SessionKey),
    /// Nobody can be asked yet.
    Wait,
}

/// The first validator in `knows` that is connected and has not been asked.
pub open spec fn first_askable(
    knows: Seq<SessionKey>,
    validators: Map<SessionKey, PeerId>,
    attempted: Set<SessionKey>,
) -> Option<SessionKey>
    decreases knows.len(),
{
    if knows.len() == 0 {
        None
    } else if validators.contains_key(knows[0]) && !attempted.contains(knows[0]) {
        Some(knows[0])
    } else {
        first_askable(knows.drop_first(), validators, attempted)
    }
}

impl<S> Step<S> {
    /// The same step with other actions before its own.
    pub open spec fn after(self, actions: Seq<ActionView<S>>) -> Step<S> {
        Step { state: self.state, actions: actions + self.actions }
    }
}

/// The actions that send a peer the given collations, each under its relay parent.
pub open spec fn collations_to<S>(peer: PeerId, due: Seq<(H256, Seq<u8>)>) -> Seq<ActionView<S>> {
    due.map_values(
        |item: (H256, Seq<u8>)|
            ActionView::SendMessage(peer, MessageView::Collation(item.0, item.1)),
    )
}

impl<S> ProtocolView<S> {
    /// The state of a node that has just started.
    pub open spec fn initial(collating_for: Option<(AccountId, ParaId)>) -> ProtocolView<S> {
        ProtocolView {
            peers: Map::empty(),
            collating_for,
            validators: Map::empty(),
            live_consensus: None,
            in_flight: Map::empty(),
            pending: seq![],
            next_req_id: 1,
        }
    }

    /// Nothing happens.
    pub open spec fn idle(self) -> Step<S> {
        Step { state: self, actions: seq![] }
    }

    /// The state stays as it is, and one thing is done.
    pub open spec fn just(self, action: ActionView<S>) -> Step<S> {
        Step { state: self, actions: seq![action] }
    }

    // Invariants.

    /// The peer is connected and collates under the account.
    pub open spec fn collates_as(self, peer: PeerId, account: AccountId) -> bool {
        self.peers.contains_key(peer) && match self.peers[peer].collating_for {
            Some((collator, _)) => collator == account,
            None => false,
        }
    }

    /// No two connected peers collate under one account.
    pub open spec fn one_peer_per_collator(self) -> bool {
        forall|p: PeerId, q: PeerId, account: AccountId| #[trigger]
            self.collates_as(p, account) && #[trigger] self.collates_as(q, account) ==> p == q
    }

    /// Every request in flight has a number that has been given out.
    pub open spec fn numbers_given(self) -> bool {
        forall|id: RequestId| #[trigger]
            self.in_flight.contains_key(id) ==> id < self.next_req_id
    }

    /// What holds of every state that can be reached.
    pub open spec fn wf(self) -> bool {
        self.one_peer_per_collator() && self.numbers_given()
    }

    /// A session key leads to a connected peer that goes by it and claims to be a validator.
    pub open spec fn keys_lead_home(self) -> bool {
        forall|key: SessionKey| #[trigger]
            self.validators.contains_key(key) ==> self.peers.contains_key(self.validators[key])
                && self.peers[self.validators[key]].validator_key == Some(key)
                && self.peers[self.validators[key]].claimed_validator
    }

    /// Only connected peers are waited for.
    pub open spec fn asked_are_connected(self) -> bool {
        forall|id: RequestId| #[trigger]
            self.in_flight.contains_key(id) ==> self.peers.contains_key(self.in_flight[id].peer)
    }

    /// The tables agree.
    pub open spec fn linked(self) -> bool {
        self.keys_lead_home() && self.asked_are_connected()
    }

    /// There are numbers left for every pending request and for so many more.
    pub open spec fn numbers_for(self, more: nat) -> bool {
        self.next_req_id + self.pending.len() + more <= u64::MAX
    }

    /// There are numbers left for what a message makes necessary.
    pub open spec fn numbers_for_message(self, message: MessageView) -> bool {
        match message {
            MessageView::SessionKey(_) => self.numbers_for(0),
            MessageView::BlockData(_, None) => self.numbers_for(1),
            _ => true,
        }
    }

    /// There are numbers left for what the bytes of a message make necessary.
    pub open spec fn numbers_for_bytes(self, raw: Seq<u8>, read_len: Option<usize>) -> bool {
        match MessageView::received(raw, read_len) {
            Some(message) => self.numbers_for_message(message),
            None => true,
        }
    }

    // Requests for block data.

    /// What becomes of a request in the live session.
    pub open spec fn route(self, known: Map<H256, EntryView>, request: RequestView<S>) -> Route {
        if self.live_consensus is None || request.consensus_parent
            != self.live_consensus->0.parent_hash {
            Route::Drop
        } else if !known.contains_key(request.candidate_hash) {
            Route::Wait
        } else if let Some(data) = known[request.candidate_hash].block_data {
            Route::Answer(data)
        } else if let Some(key) = first_askable(
            known[request.candidate_hash].knows_block_data,
            self.validators,
            request.attempted_peers,
        ) {
            Route::Ask(key)
        } else {
            Route::Wait
        }
    }

    /// Deals with one request that is not (or no longer) among the pending ones.
    pub open spec fn dispatch_one(
        self,
        known: Map<H256, EntryView>,
        request: RequestView<S>,
    ) -> Step<S> {
        match self.route(known, request) {
            Route::Drop => self.idle(),
            Route::Answer(data) => self.just(ActionView::AnswerBlockData(request.sender, data)),
            Route::Ask(key) => {
                let id = self.next_req_id as u64;
                let peer = self.validators[key];
                let asked = RequestView {
                    attempted_peers: request.attempted_peers.insert(key),
                    ..request
                };
                Step {
                    state: ProtocolView {
                        in_flight: self.in_flight.insert(id, FlightView { peer, request: asked }),
                        next_req_id: self.next_req_id + 1,
                        ..self
                    },
                    actions: seq![
                        ActionView::SendMessage(
                            peer,
                            MessageView::RequestBlockData(id, request.candidate_hash),
                        ),
                    ],
                }
            },
            Route::Wait => ProtocolView { pending: self.pending.push(request), ..self }.idle(),
        }
    }

    /// Deals with requests one after the other.
    pub open spec fn dispatch_each(
        self,
        known: Map<H256, EntryView>,
        requests: Seq<RequestView<S>>,
    ) -> Step<S>
        decreases requests.len(),
    {
        if requests.len() == 0 {
            self.idle()
        } else {
            let before = self.dispatch_each(known, requests.drop_last());
            before.state.dispatch_one(known, requests.last()).after(before.actions)
        }
    }

    /// Deals with the pending requests. Without a live session all of them are dropped.
    pub open spec fn dispatch(self, known: Map<H256, EntryView>) -> Step<S> {
        ProtocolView { pending: seq![], ..self }.dispatch_each(known, self.pending)
    }

    /// A request is taken up and dealt with.
    pub open spec fn fetch(
        self,
        known: Map<H256, EntryView>,
        candidate: CandidateReceipt,
        relay_parent: H256,
        sender: S,
    ) -> Step<S> {
        let request = RequestView {
            attempted_peers: Set::empty(),
            consensus_parent: relay_parent,
            candidate_hash: candidate.hash,
            block_data_hash: candidate.block_data_hash,
            sender,
        };
        ProtocolView { pending: self.pending.push(request), ..self }.dispatch(known)
    }

    /// The request that the peer has been asked under the number is in flight.
    pub open spec fn awaits(self, peer: PeerId, id: RequestId) -> bool {
        self.in_flight.contains_key(id) && self.in_flight[id].peer == peer
    }

    /// A peer responds to a request. `data` is what it sent, with its hash.
    pub open spec fn block_data(
        self,
        known: Map<H256, EntryView>,
        peer: PeerId,
        id: RequestId,
        data: Option<(Seq<u8>, H256)>,
    ) -> Step<S> {
        if !self.awaits(peer, id) {
            self.just(ActionView::DisablePeer(peer, Misbehavior::UnexpectedBlockData))
        } else {
            let request = self.in_flight[id].request;
            let landed = ProtocolView { in_flight: self.in_flight.remove(id), ..self };
            match data {
                Some((bytes, hash)) if hash == request.block_data_hash => landed.just(
                    ActionView::AnswerBlockData(request.sender, bytes),
                ),
                _ => ProtocolView {
                    pending: landed.pending.push(request),
                    ..landed
                }.dispatch(known),
            }
        }
    }

    // Sessions.

    /// The peers that are told the session key of this node.
    pub open spec fn key_holders(self) -> Set<PeerId> {
        Set::new(
            |peer: PeerId|
                self.peers.contains_key(peer) && (self.peers[peer].claimed_validator
                    || self.peers[peer].collating_for is Some),
        )
    }

    /// The session key of this node changes with the new session.
    pub open spec fn key_changes(self, consensus: CurrentConsensus) -> bool {
        self.live_consensus is None || self.live_consensus->0.local_session_key
            != consensus.local_session_key
    }

    /// A new session goes live; `told` are the peers that are sent the new key, in their order.
    pub open spec fn new_consensus(
        self,
        consensus: CurrentConsensus,
        told: Seq<PeerId>,
    ) -> Step<S> {
        Step {
            state: ProtocolView { live_consensus: Some(consensus), ..self },
            actions: told.map_values(
                |peer: PeerId|
                    ActionView::SendMessage(
                        peer,
                        MessageView::SessionKey(consensus.local_session_key),
                    ),
            ).push(
                ActionView::GossipCollectGarbage(
                    match self.live_consensus {
                        Some(before) => Some(before.parent_hash),
                        None => None,
                    },
                ),
            ),
        }
    }

    /// The order names every peer that is told a new key, each once; nobody is told an old one.
    pub open spec fn tells(self, consensus: CurrentConsensus, told: Seq<PeerId>) -> bool {
        if self.key_changes(consensus) {
            told.no_duplicates() && told.to_set() == self.key_holders()
        } else {
            told.len() == 0
        }
    }

    /// A peer sends its session key.
    pub open spec fn session_key(
        self,
        known: Map<H256, EntryView>,
        peer: PeerId,
        key: SessionKey,
    ) -> Step<S> {
        if !self.peers.contains_key(peer) {
            self.idle()
        } else if !self.peers[peer].claimed_validator {
            self.just(ActionView::DisablePeer(peer, Misbehavior::KeyWithoutAuthority))
        } else {
            let info = self.peers[peer];
            let (kept, actions) = match info.validator_key {
                Some(before) => (
                    self.validators.remove(before),
                    seq![ActionView::FreshKey(peer, before, key)],
                ),
                None => (self.validators, seq![]),
            };
            ProtocolView {
                peers: self.peers.insert(peer, PeerInfo { validator_key: Some(key), ..info }),
                validators: kept.insert(key, peer),
                ..self
            }.dispatch(known).after(actions)
        }
    }

    // Peers.

    /// The account that is claimed is one that a connected peer collates under.
    pub open spec fn claim_taken(self, claim: Option<(AccountId, ParaId)>) -> bool {
        match claim {
            Some((account, _)) => self.collator_peer(account) is Some,
            None => false,
        }
    }

    /// A peer connects and claims to collate, or not.
    pub open spec fn connect(
        self,
        known: Map<H256, EntryView>,
        peer: PeerId,
        claim: Option<(AccountId, ParaId)>,
        roles: Roles,
    ) -> Step<S> {
        if self.claim_taken(claim) {
            self.just(ActionView::DisconnectPeer(peer))
        } else {
            let info = PeerInfo {
                collating_for: claim,
                validator_key: None,
                claimed_validator: roles.authority,
            };
            let registration = match claim {
                Some((account, para)) => seq![ActionView::NewCollator(peer, account, para)],
                None => seq![],
            };
            let greeting = if self.live_consensus is Some && (roles.authority || claim is Some) {
                seq![
                    ActionView::SendMessage(
                        peer,
                        MessageView::SessionKey(self.live_consensus->0.local_session_key),
                    ),
                ]
            } else {
                seq![]
            };
            ProtocolView { peers: self.peers.insert(peer, info), ..self }.dispatch(known).after(
                registration + seq![ActionView::GossipNewPeer(peer, roles)] + greeting,
            )
        }
    }

    /// The numbers of the requests that the peer has been asked.
    pub open spec fn flights_to(self, peer: PeerId) -> Set<RequestId> {
        Set::new(|id: RequestId| self.awaits(peer, id))
    }

    /// The state without a peer: its key is forgotten, and what it was asked is pending again,
    /// in the order given.
    pub open spec fn without_peer(self, peer: PeerId, order: Seq<RequestId>) -> ProtocolView<S> {
        ProtocolView {
            peers: self.peers.remove(peer),
            validators: match self.peers[peer].validator_key {
                Some(key) => self.validators.remove(key),
                None => self.validators,
            },
            in_flight: self.in_flight.remove_keys(self.flights_to(peer)),
            pending: self.pending + order.map_values(|id: RequestId| self.in_flight[id].request),
            ..self
        }
    }

    /// The order names every request that the peer has been asked, each once.
    pub open spec fn lists_flights(self, peer: PeerId, order: Seq<RequestId>) -> bool {
        order.no_duplicates() && order.to_set() == self.flights_to(peer)
    }

    /// A peer disconnects.
    pub open spec fn disconnect(
        self,
        known: Map<H256, EntryView>,
        peer: PeerId,
        order: Seq<RequestId>,
    ) -> Step<S> {
        if !self.peers.contains_key(peer) {
            self.idle()
        } else {
            let info = self.peers[peer];
            let collator = match info.collating_for {
                Some((account, _)) => seq![ActionView::CollatorDisconnected(account)],
                None => seq![],
            };
            let validator = match info.validator_key {
                Some(key) => seq![ActionView::ValidatorDisconnected(key)],
                None => seq![],
            };
            self.without_peer(peer, order).dispatch(known).after(
                collator + validator + seq![ActionView::GossipPeerDisconnected(peer)],
            )
        }
    }

    /// The node maintains its peers.
    pub open spec fn maintain(self, known: Map<H256, EntryView>) -> Step<S> {
        let step = self.dispatch(known);
        Step {
            state: step.state,
            actions: seq![
                ActionView::GossipCollectGarbage(None),
                ActionView::CollatorsCollectGarbage(None),
                ActionView::LocalCollectGarbage(None),
            ] + step.actions + seq![ActionView::MaintainCollators],
        }
    }

    // Collators.

    /// The connected peer that collates under the account.
    pub open spec fn collator_peer(self, account: AccountId) -> Option<PeerId> {
        if exists|peer: PeerId| #[trigger] self.collates_as(peer, account) {
            Some(choose|peer: PeerId| #[trigger] self.collates_as(peer, account))
        } else {
            None
        }
    }

    /// What is done for the collator pool to the peer behind an account, if it is connected.
    pub open spec fn collator_action(self, action: CollatorAction) -> Option<ActionView<S>> {
        match action {
            CollatorAction::Disconnect(account) => match self.collator_peer(account) {
                Some(peer) => Some(ActionView::DisablePeer(peer, Misbehavior::BadCollator)),
                None => None,
            },
            CollatorAction::NewRole(account, role) => match self.collator_peer(account) {
                Some(peer) => Some(
                    ActionView::SendMessage(peer, MessageView::CollatorRole(role)),
                ),
                None => None,
            },
        }
    }

    /// What is done for the collator pool, one thing after the other.
    pub open spec fn collator_actions(self, actions: Seq<CollatorAction>) -> Seq<ActionView<S>>
        decreases actions.len(),
    {
        if actions.len() == 0 {
            seq![]
        } else {
            let before = self.collator_actions(actions.drop_last());
            match self.collator_action(actions.last()) {
                Some(action) => before.push(action),
                None => before,
            }
        }
    }

    /// What is done about a collation that a peer sent.
    pub open spec fn collation(
        self,
        from: PeerId,
        relay_parent: H256,
        receipt: CandidateReceipt,
        collation: Seq<u8>,
    ) -> ActionView<S> {
        if !self.peers.contains_key(from) {
            ActionView::DisconnectPeer(from)
        } else if let Some((account, para)) = self.peers[from].collating_for {
            if para == receipt.parachain_index && account == receipt.collator
                && receipt.signature_valid {
                ActionView::CollationReceived(account, relay_parent, collation)
            } else {
                ActionView::DisablePeer(from, Misbehavior::MalformedCollation)
            }
        } else {
            ActionView::DisablePeer(from, Misbehavior::CollationWithoutIntent)
        }
    }

    /// What is done about a role that a peer gives to this node.
    pub open spec fn new_role(self, peer: PeerId, role: Role) -> Option<ActionView<S>> {
        if !self.peers.contains_key(peer) {
            None
        } else if let Some(key) = self.peers[peer].validator_key {
            Some(ActionView::NoteValidatorRole(peer, key, role))
        } else {
            Some(ActionView::DisablePeer(peer, Misbehavior::RoleWithoutKey))
        }
    }

    /// The messages that take a local collation to the validators that are due it. Validators
    /// that are not connected are passed over.
    pub open spec fn local_collation(
        self,
        relay_parent: H256,
        due: Seq<(SessionKey, Seq<u8>)>,
    ) -> Seq<ActionView<S>>
        decreases due.len(),
    {
        if due.len() == 0 {
            seq![]
        } else {
            let before = self.local_collation(relay_parent, due.drop_last());
            let (key, collation) = due.last();
            if self.validators.contains_key(key) {
                before.push(
                    ActionView::SendMessage(
                        self.validators[key],
                        MessageView::Collation(relay_parent, collation),
                    ),
                )
            } else {
                before
            }
        }
    }

    // Messages.

    /// A peer sends a message. `raw` is what it was read from.
    pub open spec fn message(
        self,
        known: Map<H256, EntryView>,
        peer: PeerId,
        raw: Seq<u8>,
        message: MessageView,
    ) -> Step<S> {
        match message {
            MessageView::Statement(parent_hash, _) => self.just(
                ActionView::GossipChainSpecific(peer, raw, parent_hash),
            ),
            MessageView::SessionKey(key) => self.session_key(known, peer, key),
            MessageView::RequestBlockData(id, candidate) => self.just(
                ActionView::SendMessage(
                    peer,
                    MessageView::BlockData(
                        id,
                        if self.live_consensus is Some {
                            block_data_of(known, candidate)
                        } else {
                            None
                        },
                    ),
                ),
            ),
            MessageView::BlockData(id, Some(data)) => self.just(
                ActionView::HashBlockData(peer, id, data),
            ),
            MessageView::BlockData(id, None) => self.block_data(known, peer, id, None),
            MessageView::CollatorRole(role) => match self.new_role(peer, role) {
                Some(action) => self.just(action),
                None => self.idle(),
            },
            MessageView::Collation(relay_parent, collation) => self.just(
                ActionView::OpenCollation(peer, relay_parent, collation),
            ),
        }
    }

    /// A peer sends the bytes of a message, of whose payload the reader takes so many.
    pub open spec fn chain_specific(
        self,
        known: Map<H256, EntryView>,
        peer: PeerId,
        raw: Seq<u8>,
        read_len: Option<usize>,
    ) -> Step<S> {
        match MessageView::received(raw, read_len) {
            Some(message) => self.message(known, peer, raw, message),
            None => self.just(ActionView::DisablePeer(peer, Misbehavior::InvalidMessage)),
        }
    }
}

/// As many numbers are listed as there are requests that the peer has been asked.
pub proof fn lemma_listed_len<S>(state: ProtocolView<S>, peer: PeerId, order: Seq<RequestId>)
    requires
        state.lists_flights(peer, order),
    ensures
        order.len() == state.flights_to(peer).len(),
{
    order.unique_seq_to_set();
}

/// Where no two peers collate under one account, none do once peers have left or have changed in
/// other ways.
pub proof fn lemma_collators_stay_apart<S>(before: ProtocolView<S>, after: ProtocolView<S>)
    requires
        before.one_peer_per_collator(),
        forall|p: PeerId| #[trigger]
            after.peers.contains_key(p) ==> before.peers.contains_key(p)
                && after.peers[p].collating_for == before.peers[p].collating_for,
    ensures
        after.one_peer_per_collator(),
{
    assert forall|p: PeerId, q: PeerId, a: AccountId| #[trigger]
        after.collates_as(p, a) && #[trigger] after.collates_as(q, a) implies p == q by {
        assert(before.collates_as(p, a) && before.collates_as(q, a));
    }
}

} // verus!
