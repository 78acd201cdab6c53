//! What holds of connected peers and of those that are gone.
use vstd::prelude::*;

use crate::action::ActionView;
use crate::knowledge::EntryView;
use crate::laws::collators::law_local_collation_reaches_its_validators;
use crate::laws::dispatch::{law_dispatch_actions, law_dispatch_frame,
    law_dispatch_leaves_peers_alone};
use crate::laws::invariants::{law_disconnect_is_sound, sound};
use crate::laws::wire::law_status_round_trip;
use crate::message::MessageView;
use crate::model::{lemma_listed_len, CurrentConsensus, PeerInfo, ProtocolView, RequestView};
use crate::primitives::{H256, PeerId, RequestId, Roles, SessionKey};
use crate::protocol::claim_of;
use crate::status::Status;

verus! {

/// A peer that has disconnected leaves nothing behind: it is not connected, no session key leads
/// to it and no response is awaited from it.
pub proof fn law_disconnected_is_gone<S>(
    state: ProtocolView<S>,
    known: Map<H256, EntryView>,
    peer: PeerId,
    order: Seq<RequestId>,
)
    requires
        sound(state),
        state.numbers_for(state.flights_to(peer).len()),
        state.lists_flights(peer, order),
    ensures
        ({
            let after = state.disconnect(known, peer, order).state;
            &&& !after.peers.contains_key(peer)
            &&& !after.validators.contains_value(peer)
            &&& forall|id: RequestId| !#[trigger] after.awaits(peer, id)
        }),
{
    let after = state.disconnect(known, peer, order).state;
    law_disconnect_is_sound(state, known, peer, order);
    if state.peers.contains_key(peer) {
        let left = state.without_peer(peer, order);
        let cleared = ProtocolView { pending: seq![], ..left };
        lemma_listed_len(state, peer, order);
        assert forall|id: RequestId| #[trigger] cleared.in_flight.contains_key(id) implies id
            < cleared.next_req_id by {
            assert(state.in_flight.contains_key(id));
        }
        law_dispatch_frame(cleared, known, left.pending);
    }
    assert(!after.peers.contains_key(peer));
    if after.validators.contains_value(peer) {
        let key = choose|key: SessionKey| #[trigger]
            after.validators.contains_key(key) && after.validators[key] == peer;
        assert(after.validators.contains_key(key));
    }
    assert forall|id: RequestId| !#[trigger] after.awaits(peer, id) by {
        if after.awaits(peer, id) {
            assert(after.in_flight.contains_key(id));
        }
    }
}

/// What comes from a peer that is not connected changes nothing.
pub proof fn law_strangers_change_nothing<S>(
    state: ProtocolView<S>,
    known: Map<H256, EntryView>,
    peer: PeerId,
    raw: Seq<u8>,
    read_len: Option<usize>,
    id: RequestId,
    data: Option<(Seq<u8>, H256)>,
)
    requires
        state.asked_are_connected(),
        !state.peers.contains_key(peer),
    ensures
        state.chain_specific(known, peer, raw, read_len).state == state,
        state.block_data(known, peer, id, data).state == state,
{
    assert forall|k: RequestId| !#[trigger] state.awaits(peer, k) by {
        if state.awaits(peer, k) {
            assert(state.in_flight.contains_key(k));
        }
    }
}

/// A peer is found under one session key at most.
pub proof fn law_one_key_per_peer<S>(state: ProtocolView<S>, a: SessionKey, b: SessionKey)
    requires
        state.keys_lead_home(),
        state.validators.contains_key(a),
        state.validators.contains_key(b),
        state.validators[a] == state.validators[b],
    ensures
        a == b,
{
}

/// Session keys go on to lead to their peers when a peer sends one: a peer that did not connect as
/// a validator is under none, and a validator is under the key that it has just sent and under no
/// other.
pub proof fn law_session_key_leads_home<S>(
    state: ProtocolView<S>,
    known: Map<H256, EntryView>,
    peer: PeerId,
    key: SessionKey,
)
    requires
        state.keys_lead_home(),
    ensures
        ({
            let after = state.session_key(known, peer, key).state;
            &&& after.keys_lead_home()
            &&& state.peers.contains_key(peer) && state.peers[peer].claimed_validator
                ==> after.validators.contains_key(key) && after.validators[key] == peer
                && after.peers[peer].validator_key == Some(key)
            &&& forall|other: SessionKey| #[trigger]
                after.validators.contains_key(other) && after.validators[other] == peer
                    ==> after.peers[peer].validator_key == Some(other)
        }),
{
    let after = state.session_key(known, peer, key).state;
    if state.peers.contains_key(peer) && state.peers[peer].claimed_validator {
        let info = state.peers[peer];
        let kept = match info.validator_key {
            Some(before) => state.validators.remove(before),
            None => state.validators,
        };
        let cleared = ProtocolView {
            peers: state.peers.insert(peer, PeerInfo { validator_key: Some(key), ..info }),
            validators: kept.insert(key, peer),
            pending: seq![],
            ..state
        };
        law_dispatch_leaves_peers_alone(cleared, known, state.pending);
        assert forall|k: SessionKey| #[trigger] after.validators.contains_key(k) implies
            after.peers.contains_key(after.validators[k])
                && after.peers[after.validators[k]].validator_key == Some(k)
                && after.peers[after.validators[k]].claimed_validator by {
            if k != key {
                assert(state.validators.contains_key(k));
            }
        }
    }
}

/// Session keys go on to lead to their peers when a peer disconnects, and none leads to that peer.
pub proof fn law_disconnect_leads_home<S>(
    state: ProtocolView<S>,
    known: Map<H256, EntryView>,
    peer: PeerId,
    order: Seq<RequestId>,
)
    requires
        state.keys_lead_home(),
    ensures
        ({
            let after = state.disconnect(known, peer, order).state;
            &&& after.keys_lead_home()
            &&& !after.peers.contains_key(peer)
            &&& !after.validators.contains_value(peer)
        }),
{
    let after = state.disconnect(known, peer, order).state;
    if state.peers.contains_key(peer) {
        let left = state.without_peer(peer, order);
        let cleared = ProtocolView { pending: seq![], ..left };
        law_dispatch_leaves_peers_alone(cleared, known, left.pending);
        assert forall|k: SessionKey| #[trigger] after.validators.contains_key(k) implies
            after.peers.contains_key(after.validators[k])
                && after.peers[after.validators[k]].validator_key == Some(k)
                && after.peers[after.validators[k]].claimed_validator by {
            assert(state.validators.contains_key(k));
        }
    }
    if after.validators.contains_value(peer) {
        let key = choose|key: SessionKey| #[trigger]
            after.validators.contains_key(key) && after.validators[key] == peer;
        assert(after.validators.contains_key(key));
    }
}

/// Neither a request for block data nor a local collation goes to a peer that is not connected.
pub proof fn law_strangers_are_sent_nothing<S>(
    state: ProtocolView<S>,
    known: Map<H256, EntryView>,
    requests: Seq<RequestView<S>>,
    relay_parent: H256,
    due: Seq<(SessionKey, Seq<u8>)>,
    peer: PeerId,
    message: MessageView,
)
    requires
        state.keys_lead_home(),
        !state.peers.contains_key(peer),
    ensures
        !state.dispatch_each(known, requests).actions.contains(
            ActionView::SendMessage(peer, message),
        ),
        !state.local_collation(relay_parent, due).contains(ActionView::SendMessage(peer, message)),
{
    let action = ActionView::<S>::SendMessage(peer, message);
    if state.dispatch_each(known, requests).actions.contains(action) {
        law_dispatch_actions(state, known, requests, action);
        let key = choose|key: SessionKey| #[trigger]
            state.validators.contains_key(key) && state.validators[key] == peer;
        assert(state.validators.contains_key(key));
    }
    law_local_collation_reaches_its_validators(state, relay_parent, due, action);
    if state.local_collation(relay_parent, due).contains(action) {
        let i = choose|i: int|
            #![trigger due[i]]
            0 <= i < due.len() && state.validators.contains_key(due[i].0) && action
                == ActionView::<S>::SendMessage(
                state.validators[due[i].0],
                MessageView::Collation(relay_parent, due[i].1),
            );
        assert(state.validators.contains_key(due[i].0));
    }
}

/// A peer whose status is none is taken up as one that does not collate, just as if it had
/// announced that: it is not sent away.
pub proof fn law_unreadable_status_is_no_claim<S>(
    state: ProtocolView<S>,
    known: Map<H256, EntryView>,
    peer: PeerId,
    chain_status: Seq<u8>,
    roles: Roles,
    action: ActionView<S>,
)
    requires
        Status::announced(chain_status) is None,
    ensures
        ({
            let step = state.connect(known, peer, claim_of(chain_status), roles);
            &&& step == state.connect(known, peer, claim_of(seq![0u8]), roles)
            &&& step.state.peers == state.peers.insert(
                peer,
                (PeerInfo {
                    collating_for: None,
                    validator_key: None,
                    claimed_validator: roles.authority,
                }),
            )
            &&& step.actions.contains(action) ==> !(action is DisconnectPeer) && !(
            action is DisablePeer)
        }),
{
    let silent = Status { collating_for: None };
    law_status_round_trip(silent, seq![]);
    assert(silent.encoding() + seq![] =~= seq![0u8]);
    let info = PeerInfo {
        collating_for: None,
        validator_key: None,
        claimed_validator: roles.authority,
    };
    let joined = ProtocolView { peers: state.peers.insert(peer, info), ..state };
    let cleared = ProtocolView { pending: seq![], ..joined };
    let step = state.connect(known, peer, claim_of(chain_status), roles);
    let dispatched = cleared.dispatch_each(known, joined.pending);
    law_dispatch_leaves_peers_alone(cleared, known, joined.pending);
    if step.actions.contains(action) {
        let i = choose|i: int| 0 <= i < step.actions.len() && step.actions[i] == action;
        let n = step.actions.len() - dispatched.actions.len();
        if i >= n {
            assert(dispatched.actions[i - n] == action);
            law_dispatch_actions(cleared, known, joined.pending, action);
        }
    }
}

/// A new session whose key is another is told to exactly the validators and collators that are
/// connected; one with the same key is told to nobody.
pub proof fn law_new_key_is_told<S>(
    state: ProtocolView<S>,
    consensus: CurrentConsensus,
    told: Seq<PeerId>,
    peer: PeerId,
)
    requires
        state.tells(consensus, told),
    ensures
        state.new_consensus(consensus, told).actions.contains(
            ActionView::SendMessage(peer, MessageView::SessionKey(consensus.local_session_key)),
        ) <==> state.key_changes(consensus) && state.key_holders().contains(peer),
{
    let message = ActionView::<S>::SendMessage(
        peer,
        MessageView::SessionKey(consensus.local_session_key),
    );
    let actions = state.new_consensus(consensus, told).actions;
    assert(actions.len() == told.len() + 1);
    if actions.contains(message) {
        let i = choose|i: int| 0 <= i < actions.len() && actions[i] == message;
        assert(i < told.len());
        assert(told[i] == peer);
        assert(told.to_set().contains(peer));
    }
    if state.key_changes(consensus) && state.key_holders().contains(peer) {
        assert(told.to_set().contains(peer));
        let i = choose|i: int| 0 <= i < told.len() && told[i] == peer;
        assert(actions[i] == message);
    }
}

} // verus!
