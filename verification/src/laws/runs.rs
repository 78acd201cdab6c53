//! What holds after any run of events.
use vstd::prelude::*;

use crate::action::ActionView;
use crate::knowledge::EntryView;
use crate::laws::collators::law_connect_keeps_collators_apart;
use crate::laws::dispatch::law_dispatch_leaves_peers_alone;
use crate::laws::invariants::{law_block_data_is_sound, law_bytes_are_sound, law_connect_is_sound,
    law_disconnect_is_sound, law_dispatch_is_sound, law_fetch_is_sound, law_initial_is_sound,
    law_maintain_is_sound, law_message_is_sound, law_new_consensus_is_sound,
    law_session_key_is_sound, sound};
use crate::laws::wire::law_status_round_trip;
use crate::message::MessageView;
use crate::model::{lemma_collators_stay_apart, CurrentConsensus, PeerInfo, ProtocolView,
    RequestView, Step};
use crate::primitives::{AccountId, CandidateReceipt, H256, ParaId, PeerId, RequestId, Roles,
    SessionKey};
use crate::protocol::claim_of;
use crate::status::Status;

verus! {

/// What can happen to a handler and change its state. What is known at the time is part of it, and
/// so is an order in which peers are told or requests are taken back.
pub enum Event<S> {
    Dispatch(Map<H256, EntryView>),
    Fetch(Map<H256, EntryView>, CandidateReceipt, H256, S),
    NewConsensus(CurrentConsensus, Seq<PeerId>),
    SessionKey(Map<H256, EntryView>, PeerId, SessionKey),
    BlockData(Map<H256, EntryView>, PeerId, RequestId, Option<(Seq<u8>, H256)>),
    Connect(Map<H256, EntryView>, PeerId, Option<(AccountId, ParaId)>, Roles),
    Disconnect(Map<H256, EntryView>, PeerId, Seq<RequestId>),
    Maintain(Map<H256, EntryView>),
    Message(Map<H256, EntryView>, PeerId, Seq<u8>, MessageView),
    Bytes(Map<H256, EntryView>, PeerId, Seq<u8>, Option<usize>),
}

/// What an event does.
pub open spec fn react<S>(state: ProtocolView<S>, event: Event<S>) -> Step<S> {
    match event {
        Event::Dispatch(known) => state.dispatch(known),
        Event::Fetch(known, candidate, parent, sender) => state.fetch(
            known,
            candidate,
            parent,
            sender,
        ),
        Event::NewConsensus(consensus, told) => state.new_consensus(consensus, told),
        Event::SessionKey(known, peer, key) => state.session_key(known, peer, key),
        Event::BlockData(known, peer, id, data) => state.block_data(known, peer, id, data),
        Event::Connect(known, peer, claim, roles) => state.connect(known, peer, claim, roles),
        Event::Disconnect(known, peer, order) => state.disconnect(known, peer, order),
        Event::Maintain(known) => state.maintain(known),
        Event::Message(known, peer, raw, message) => state.message(known, peer, raw, message),
        Event::Bytes(known, peer, raw, read_len) => state.chain_specific(
            known,
            peer,
            raw,
            read_len,
        ),
    }
}

/// The state after one event after the other.
pub open spec fn run<S>(state: ProtocolView<S>, events: Seq<Event<S>>) -> ProtocolView<S>
    decreases events.len(),
{
    if events.len() == 0 {
        state
    } else {
        react(run(state, events.drop_last()), events.last()).state
    }
}

/// No event changes what this node collates for.
pub proof fn law_event_keeps_collating_for<S>(state: ProtocolView<S>, event: Event<S>)
    ensures
        react(state, event).state.collating_for == state.collating_for,
{
    lemma_event_on_peers(state, event);
}

/// What an event does to the peers, as far as they collate, and to this node's own collating.
proof fn lemma_event_on_peers<S>(state: ProtocolView<S>, event: Event<S>)
    ensures
        react(state, event).state.collating_for == state.collating_for,
        !(event is Connect) ==> forall|p: PeerId| #[trigger]
            react(state, event).state.peers.contains_key(p) ==> state.peers.contains_key(p)
                && react(state, event).state.peers[p].collating_for
                == state.peers[p].collating_for,
{
    assert forall|known: Map<H256, EntryView>, other: ProtocolView<S>|
        other.dispatch(known).state.peers == other.peers && #[trigger] other.dispatch(
            known,
        ).state.collating_for == other.collating_for by {
        let cleared = ProtocolView { pending: seq![], ..other };
        law_dispatch_leaves_peers_alone(cleared, known, other.pending);
    }
}

/// The status that a node announces is read as what the node was started with, whatever has
/// happened to it since and whatever follows the status: nothing happens to change it. It is a
/// single zero just if the node does not collate.
pub proof fn law_status_is_what_was_given<S>(
    collating_for: Option<(AccountId, ParaId)>,
    events: Seq<Event<S>>,
    rest: Seq<u8>,
)
    ensures
        ({
            let now = run(ProtocolView::<S>::initial(collating_for), events);
            let status = Status { collating_for: now.collating_for };
            &&& status == Status { collating_for }
            &&& Status::announced(status.encoding() + rest) == Some(Status { collating_for })
            &&& claim_of(status.encoding() + rest) == collating_for
            &&& status.encoding() == seq![0u8] <==> collating_for is None
        }),
    decreases events.len(),
{
    if events.len() > 0 {
        let before = run(ProtocolView::<S>::initial(collating_for), events.drop_last());
        law_status_is_what_was_given(collating_for, events.drop_last(), rest);
        law_event_keeps_collating_for(before, events.last());
    }
    let status = Status { collating_for };
    law_status_round_trip(status, rest);
    if let Some((account, para)) = collating_for {
        assert(status.encoding()[0] == 1);
        assert(seq![0u8][0] == 0);
    }
}

/// At no time do two connected peers collate under one account, whatever happens.
pub proof fn law_collators_are_always_apart<S>(
    collating_for: Option<(AccountId, ParaId)>,
    events: Seq<Event<S>>,
)
    ensures
        run(ProtocolView::<S>::initial(collating_for), events).one_peer_per_collator(),
    decreases events.len(),
{
    let start = ProtocolView::<S>::initial(collating_for);
    if events.len() > 0 {
        let before = run(start, events.drop_last());
        law_collators_are_always_apart(collating_for, events.drop_last());
        if let Event::Connect(known, peer, claim, roles) = events.last() {
            law_connect_keeps_collators_apart(before, known, peer, claim, roles);
        } else {
            lemma_event_on_peers(before, events.last());
            lemma_collators_stay_apart(before, run(start, events));
        }
    }
}

/// The event can come in the state: there are numbers left for what it makes necessary, who
/// connects was not connected, and an order lists what it has to.
pub open spec fn fits<S>(state: ProtocolView<S>, event: Event<S>) -> bool {
    match event {
        Event::Dispatch(_) => state.numbers_for(0),
        Event::Fetch(..) => state.numbers_for(1),
        Event::NewConsensus(consensus, told) => state.tells(consensus, told),
        Event::SessionKey(..) => state.numbers_for(0),
        Event::BlockData(..) => state.numbers_for(1),
        Event::Connect(_, peer, _, _) => state.numbers_for(0) && !state.peers.contains_key(peer),
        Event::Disconnect(_, peer, order) => state.numbers_for(state.flights_to(peer).len())
            && state.lists_flights(peer, order),
        Event::Maintain(_) => state.numbers_for(0),
        Event::Message(_, _, _, message) => state.numbers_for_message(message),
        Event::Bytes(_, _, raw, read_len) => state.numbers_for_bytes(raw, read_len),
    }
}

/// Each event can come when it does.
pub open spec fn all_fit<S>(state: ProtocolView<S>, events: Seq<Event<S>>) -> bool
    decreases events.len(),
{
    events.len() > 0 ==> all_fit(state, events.drop_last()) && fits(
        run(state, events.drop_last()),
        events.last(),
    )
}

/// Every state that is reached from a fresh one is sound.
pub proof fn law_reached_is_sound<S>(
    collating_for: Option<(AccountId, ParaId)>,
    events: Seq<Event<S>>,
)
    requires
        all_fit(ProtocolView::<S>::initial(collating_for), events),
    ensures
        sound(run(ProtocolView::<S>::initial(collating_for), events)),
    decreases events.len(),
{
    let start = ProtocolView::<S>::initial(collating_for);
    law_initial_is_sound::<S>(collating_for);
    if events.len() > 0 {
        let state = run(start, events.drop_last());
        law_reached_is_sound(collating_for, events.drop_last());
        match events.last() {
            Event::Dispatch(known) => law_dispatch_is_sound(state, known),
            Event::Fetch(known, candidate, parent, sender) => law_fetch_is_sound(
                state,
                known,
                candidate,
                parent,
                sender,
            ),
            Event::NewConsensus(consensus, told) => law_new_consensus_is_sound(
                state,
                consensus,
                told,
            ),
            Event::SessionKey(known, peer, key) => law_session_key_is_sound(
                state,
                known,
                peer,
                key,
            ),
            Event::BlockData(known, peer, id, data) => law_block_data_is_sound(
                state,
                known,
                peer,
                id,
                data,
            ),
            Event::Connect(known, peer, claim, roles) => law_connect_is_sound(
                state,
                known,
                peer,
                claim,
                roles,
            ),
            Event::Disconnect(known, peer, order) => law_disconnect_is_sound(
                state,
                known,
                peer,
                order,
            ),
            Event::Maintain(known) => law_maintain_is_sound(state, known),
            Event::Message(known, peer, raw, message) => law_message_is_sound(
                state,
                known,
                peer,
                raw,
                message,
            ),
            Event::Bytes(known, peer, raw, read_len) => law_bytes_are_sound(
                state,
                known,
                peer,
                raw,
                read_len,
            ),
        }
    }
}

/// The request is for what a receipt says, in a session, on behalf of a sender.
pub open spec fn is_for<S>(
    request: RequestView<S>,
    candidate: CandidateReceipt,
    parent: H256,
    sender: S,
) -> bool {
    &&& request.candidate_hash == candidate.hash
    &&& request.block_data_hash == candidate.block_data_hash
    &&& request.consensus_parent == parent
    &&& request.sender == sender
}

/// One of the events fetched what the request is for.
pub open spec fn was_fetched<S>(events: Seq<Event<S>>, request: RequestView<S>) -> bool {
    exists|i: int|
        #![trigger events[i]]
        0 <= i < events.len() && match events[i] {
            Event::Fetch(_, candidate, parent, sender) => is_for(
                request,
                candidate,
                parent,
                sender,
            ),
            _ => false,
        }
}

/// Every request of the state was fetched by one of the events.
pub open spec fn all_were_fetched<S>(events: Seq<Event<S>>, state: ProtocolView<S>) -> bool {
    &&& forall|i: int|
        #![trigger state.pending[i]]
        0 <= i < state.pending.len() ==> was_fetched(events, state.pending[i])
    &&& forall|id: RequestId| #[trigger]
        state.in_flight.contains_key(id) ==> was_fetched(events, state.in_flight[id].request)
}

/// Requests that differ just in who has been asked were fetched together.
proof fn lemma_same_fetch<S>(events: Seq<Event<S>>, a: RequestView<S>, b: RequestView<S>)
    requires
        was_fetched(events, a),
        a.candidate_hash == b.candidate_hash,
        a.block_data_hash == b.block_data_hash,
        a.consensus_parent == b.consensus_parent,
        a.sender == b.sender,
    ensures
        was_fetched(events, b),
{
    let i = choose|i: int|
        #![trigger events[i]]
        0 <= i < events.len() && match events[i] {
            Event::Fetch(_, candidate, parent, sender) => is_for(a, candidate, parent, sender),
            _ => false,
        };
    assert(events[i] == events[i]);
}

/// Dealing with requests that were fetched leaves nothing but such.
proof fn lemma_dispatch_of_fetched<S>(
    events: Seq<Event<S>>,
    state: ProtocolView<S>,
    known: Map<H256, EntryView>,
    requests: Seq<RequestView<S>>,
)
    requires
        all_were_fetched(events, state),
        forall|i: int|
            #![trigger requests[i]]
            0 <= i < requests.len() ==> was_fetched(events, requests[i]),
    ensures
        all_were_fetched(events, state.dispatch_each(known, requests).state),
    decreases requests.len(),
{
    if requests.len() > 0 {
        let most = requests.drop_last();
        let last = requests.last();
        assert forall|i: int| #![trigger most[i]] 0 <= i < most.len() implies was_fetched(
            events,
            most[i],
        ) by {
            assert(most[i] == requests[i]);
        }
        lemma_dispatch_of_fetched(events, state, known, most);
        let before = state.dispatch_each(known, most).state;
        let after = state.dispatch_each(known, requests).state;
        assert(requests[requests.len() - 1] == last);
        assert forall|i: int| #![trigger after.pending[i]] 0 <= i < after.pending.len() implies
            was_fetched(events, after.pending[i]) by {
            if i < before.pending.len() {
                assert(after.pending[i] == before.pending[i]);
            }
        }
        assert forall|id: RequestId| #[trigger] after.in_flight.contains_key(id) implies
            was_fetched(events, after.in_flight[id].request) by {
            if before.in_flight.contains_key(id) && after.in_flight[id] == before.in_flight[id] {
            } else {
                lemma_same_fetch(events, last, after.in_flight[id].request);
            }
        }
    }
}

proof fn lemma_dispatch_pending_of_fetched<S>(
    events: Seq<Event<S>>,
    state: ProtocolView<S>,
    known: Map<H256, EntryView>,
)
    requires
        all_were_fetched(events, state),
    ensures
        all_were_fetched(events, state.dispatch(known).state),
{
    let cleared = ProtocolView { pending: seq![], ..state };
    assert(all_were_fetched(events, cleared));
    lemma_dispatch_of_fetched(events, cleared, known, state.pending);
}

/// An event leaves nothing but requests that were fetched, by it or before it.
#[verifier::spinoff_prover]
proof fn lemma_event_of_fetched<S>(
    events: Seq<Event<S>>,
    state: ProtocolView<S>,
    event: Event<S>,
)
    requires
        all_were_fetched(events, state),
        event is Fetch ==> events.contains(event),
        event matches Event::Disconnect(_, peer, order) ==> state.lists_flights(peer, order),
    ensures
        all_were_fetched(events, react(state, event).state),
{
    match event {
        Event::Dispatch(known) => lemma_dispatch_pending_of_fetched(events, state, known),
        Event::Maintain(known) => lemma_dispatch_pending_of_fetched(events, state, known),
        Event::Fetch(known, candidate, parent, sender) => {
            let request = RequestView {
                attempted_peers: Set::empty(),
                consensus_parent: parent,
                candidate_hash: candidate.hash,
                block_data_hash: candidate.block_data_hash,
                sender,
            };
            let more = ProtocolView { pending: state.pending.push(request), ..state };
            let at = choose|i: int| 0 <= i < events.len() && events[i] == event;
            assert(events[at] == event);
            assert(was_fetched(events, request));
            assert forall|i: int| #![trigger more.pending[i]] 0 <= i < more.pending.len() implies
                was_fetched(events, more.pending[i]) by {
                if i < state.pending.len() {
                    assert(more.pending[i] == state.pending[i]);
                }
            }
            assert(all_were_fetched(events, more));
            lemma_dispatch_pending_of_fetched(events, more, known);
        },
        Event::NewConsensus(..) => {
            assert(all_were_fetched(events, react(state, event).state));
        },
        Event::SessionKey(known, peer, key) => lemma_key_of_fetched(
            events,
            state,
            known,
            peer,
            key,
        ),
        Event::BlockData(known, peer, id, data) => lemma_response_of_fetched(
            events,
            state,
            known,
            peer,
            id,
            data,
        ),
        Event::Connect(known, peer, claim, roles) => {
            if !state.claim_taken(claim) {
                let info = PeerInfo {
                    collating_for: claim,
                    validator_key: None,
                    claimed_validator: roles.authority,
                };
                let joined = ProtocolView { peers: state.peers.insert(peer, info), ..state };
                assert(all_were_fetched(events, joined));
                lemma_dispatch_pending_of_fetched(events, joined, known);
            }
        },
        Event::Disconnect(known, peer, order) => {
            if state.peers.contains_key(peer) {
                let left = state.without_peer(peer, order);
                assert forall|i: int| #![trigger left.pending[i]] 0 <= i
                    < left.pending.len() implies was_fetched(events, left.pending[i]) by {
                    if i < state.pending.len() {
                        assert(left.pending[i] == state.pending[i]);
                    } else {
                        let id = order[i - state.pending.len()];
                        assert(order.to_set().contains(id));
                        assert(state.flights_to(peer).contains(id));
                        assert(state.in_flight.contains_key(id));
                    }
                }
                assert forall|id: RequestId| #[trigger] left.in_flight.contains_key(id) implies
                    was_fetched(events, left.in_flight[id].request) by {
                    assert(state.in_flight.contains_key(id));
                }
                assert(all_were_fetched(events, left));
                lemma_dispatch_pending_of_fetched(events, left, known);
            }
        },
        Event::Message(known, peer, raw, message) => lemma_message_of_fetched(
            events,
            state,
            known,
            peer,
            raw,
            message,
        ),
        Event::Bytes(known, peer, raw, read_len) => {
            if let Some(message) = MessageView::received(raw, read_len) {
                lemma_message_of_fetched(events, state, known, peer, raw, message);
            }
        },
    }
}

proof fn lemma_key_of_fetched<S>(
    events: Seq<Event<S>>,
    state: ProtocolView<S>,
    known: Map<H256, EntryView>,
    peer: PeerId,
    key: SessionKey,
)
    requires
        all_were_fetched(events, state),
    ensures
        all_were_fetched(events, state.session_key(known, peer, key).state),
{
    if state.peers.contains_key(peer) && state.peers[peer].claimed_validator {
        let info = state.peers[peer];
        let kept = match info.validator_key {
            Some(before) => state.validators.remove(before),
            None => state.validators,
        };
        let noted = ProtocolView {
            peers: state.peers.insert(peer, PeerInfo { validator_key: Some(key), ..info }),
            validators: kept.insert(key, peer),
            ..state
        };
        assert(all_were_fetched(events, noted));
        lemma_dispatch_pending_of_fetched(events, noted, known);
    }
}

proof fn lemma_response_of_fetched<S>(
    events: Seq<Event<S>>,
    state: ProtocolView<S>,
    known: Map<H256, EntryView>,
    peer: PeerId,
    id: RequestId,
    data: Option<(Seq<u8>, H256)>,
)
    requires
        all_were_fetched(events, state),
    ensures
        all_were_fetched(events, state.block_data(known, peer, id, data).state),
{
    if state.awaits(peer, id) {
        let request = state.in_flight[id].request;
        let landed = ProtocolView { in_flight: state.in_flight.remove(id), ..state };
        let again = ProtocolView { pending: landed.pending.push(request), ..landed };
        assert forall|k: RequestId| #[trigger] landed.in_flight.contains_key(k) implies
            was_fetched(events, landed.in_flight[k].request) by {
            assert(state.in_flight.contains_key(k));
        }
        assert forall|i: int| #![trigger landed.pending[i]] 0 <= i < landed.pending.len() implies
            was_fetched(events, landed.pending[i]) by {
            assert(landed.pending[i] == state.pending[i]);
        }
        assert forall|i: int| #![trigger again.pending[i]] 0 <= i < again.pending.len() implies
            was_fetched(events, again.pending[i]) by {
            if i < state.pending.len() {
                assert(again.pending[i] == state.pending[i]);
            } else {
                assert(state.in_flight.contains_key(id));
            }
        }
        assert(all_were_fetched(events, landed));
        assert forall|k: RequestId| #[trigger] again.in_flight.contains_key(k) implies
            was_fetched(events, again.in_flight[k].request) by {
            assert(landed.in_flight.contains_key(k));
        }
        assert(all_were_fetched(events, again));
        lemma_dispatch_pending_of_fetched(events, again, known);
    }
}

proof fn lemma_message_of_fetched<S>(
    events: Seq<Event<S>>,
    state: ProtocolView<S>,
    known: Map<H256, EntryView>,
    peer: PeerId,
    raw: Seq<u8>,
    message: MessageView,
)
    requires
        all_were_fetched(events, state),
    ensures
        all_were_fetched(events, state.message(known, peer, raw, message).state),
{
    match message {
        MessageView::SessionKey(key) => lemma_key_of_fetched(events, state, known, peer, key),
        MessageView::BlockData(id, None) => lemma_response_of_fetched(
            events,
            state,
            known,
            peer,
            id,
            None,
        ),
        _ => {},
    }
}

/// What was fetched by some of the events was fetched by all of them.
proof fn lemma_more_events<S>(
    fewer: Seq<Event<S>>,
    events: Seq<Event<S>>,
    state: ProtocolView<S>,
)
    requires
        all_were_fetched(fewer, state),
        fewer.len() <= events.len(),
        fewer == events.take(fewer.len() as int),
    ensures
        all_were_fetched(events, state),
{
    assert forall|request: RequestView<S>| #[trigger] was_fetched(fewer, request) implies
        was_fetched(events, request) by {
        let i = choose|i: int|
            #![trigger fewer[i]]
            0 <= i < fewer.len() && match fewer[i] {
                Event::Fetch(_, candidate, parent, sender) => is_for(
                    request,
                    candidate,
                    parent,
                    sender,
                ),
                _ => false,
            };
        assert(events[i] == fewer[i]);
    }
    assert forall|i: int| #![trigger state.pending[i]] 0 <= i < state.pending.len() implies
        was_fetched(events, state.pending[i]) by {
        assert(was_fetched(fewer, state.pending[i]));
    }
    assert forall|id: RequestId| #[trigger] state.in_flight.contains_key(id) implies was_fetched(
        events,
        state.in_flight[id].request,
    ) by {
        assert(was_fetched(fewer, state.in_flight[id].request));
    }
}

/// Whatever has happened, and however often a request has been sent out: each request is still for
/// the candidate, the block data hash, the session and the sender that it was fetched with.
pub proof fn law_requests_stay_what_they_were<S>(
    collating_for: Option<(AccountId, ParaId)>,
    events: Seq<Event<S>>,
)
    requires
        all_fit(ProtocolView::<S>::initial(collating_for), events),
    ensures
        all_were_fetched(events, run(ProtocolView::<S>::initial(collating_for), events)),
    decreases events.len(),
{
    let start = ProtocolView::<S>::initial(collating_for);
    if events.len() > 0 {
        let fewer = events.drop_last();
        law_requests_stay_what_they_were(collating_for, fewer);
        assert(fewer =~= events.take(fewer.len() as int));
        lemma_more_events(fewer, events, run(start, fewer));
        assert(events[events.len() - 1] == events.last());
        lemma_event_of_fetched(events, run(start, fewer), events.last());
    }
}

/// At any time, data with the hash that a candidate's receipt gives, from whoever is asked for it
/// just then, is handed to the sender that fetched it with this receipt.
pub proof fn law_fetched_data_reaches_its_sender<S>(
    collating_for: Option<(AccountId, ParaId)>,
    events: Seq<Event<S>>,
    known: Map<H256, EntryView>,
    peer: PeerId,
    id: RequestId,
    data: Seq<u8>,
)
    requires
        all_fit(ProtocolView::<S>::initial(collating_for), events),
        run(ProtocolView::<S>::initial(collating_for), events).in_flight.contains_key(id),
        run(ProtocolView::<S>::initial(collating_for), events).in_flight[id].peer == peer,
    ensures
        exists|i: int|
            #![trigger events[i]]
            0 <= i < events.len() && match events[i] {
                Event::Fetch(_, candidate, parent, sender) => {
                    let now = run(ProtocolView::<S>::initial(collating_for), events);
                    &&& now.in_flight[id].request.candidate_hash == candidate.hash
                    &&& now.in_flight[id].request.consensus_parent == parent
                    &&& now.block_data(
                        known,
                        peer,
                        id,
                        Some((data, candidate.block_data_hash)),
                    ).actions == seq![ActionView::AnswerBlockData(sender, data)]
                },
                _ => false,
            },
{
    let now = run(ProtocolView::<S>::initial(collating_for), events);
    law_requests_stay_what_they_were(collating_for, events);
    let request = now.in_flight[id].request;
    assert(was_fetched(events, request));
    let i = choose|i: int|
        #![trigger events[i]]
        0 <= i < events.len() && match events[i] {
            Event::Fetch(_, candidate, parent, sender) => is_for(
                request,
                candidate,
                parent,
                sender,
            ),
            _ => false,
        };
    assert(events[i] is Fetch);
}

} // verus!
