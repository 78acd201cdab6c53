//! What every event keeps.
use vstd::prelude::*;

use crate::knowledge::EntryView;
use crate::laws::dispatch::law_dispatch_frame;
use crate::message::MessageView;
use crate::model::{lemma_collators_stay_apart, lemma_listed_len, CurrentConsensus, PeerInfo,
    ProtocolView, RequestView};
use crate::primitives::{AccountId, CandidateReceipt, H256, ParaId, PeerId, RequestId, Roles,
    SessionKey};

verus! {

/// What holds of every state that is reached from a fresh one, when no peer connects twice.
pub open spec fn sound<S>(state: ProtocolView<S>) -> bool {
    state.wf() && state.linked()
}

/// A fresh state is sound.
pub proof fn law_initial_is_sound<S>(collating_for: Option<(AccountId, ParaId)>)
    ensures
        sound(ProtocolView::<S>::initial(collating_for)),
{
}

/// A dispatch keeps a state sound.
pub proof fn law_dispatch_is_sound<S>(state: ProtocolView<S>, known: Map<H256, EntryView>)
    requires
        sound(state),
        state.numbers_for(0),
    ensures
        sound(state.dispatch(known).state),
{
    let cleared = ProtocolView { pending: seq![], ..state };
    let after = state.dispatch(known).state;
    assert(cleared.numbers_given());
    law_dispatch_frame(cleared, known, state.pending);
    lemma_collators_stay_apart(state, after);
    assert forall|id: RequestId| #[trigger] after.in_flight.contains_key(id) implies
        after.peers.contains_key(after.in_flight[id].peer) by {
        if !cleared.in_flight.contains_key(id) {
            let key = choose|key: SessionKey| #[trigger]
                state.validators.contains_key(key) && state.validators[key]
                    == after.in_flight[id].peer;
            assert(state.validators.contains_key(key));
        } else {
            assert(state.in_flight.contains_key(id));
        }
    }
}

/// A request for block data keeps a state sound.
pub proof fn law_fetch_is_sound<S>(
    state: ProtocolView<S>,
    known: Map<H256, EntryView>,
    candidate: CandidateReceipt,
    relay_parent: H256,
    sender: S,
)
    requires
        sound(state),
        state.numbers_for(1),
    ensures
        sound(state.fetch(known, candidate, relay_parent, sender).state),
{
    let request = RequestView {
        attempted_peers: Set::empty(),
        consensus_parent: relay_parent,
        candidate_hash: candidate.hash,
        block_data_hash: candidate.block_data_hash,
        sender,
    };
    let taken_up = ProtocolView { pending: state.pending.push(request), ..state };
    lemma_collators_stay_apart(state, taken_up);
    assert(sound(taken_up));
    law_dispatch_is_sound(taken_up, known);
}

/// A response to a request keeps a state sound.
pub proof fn law_block_data_is_sound<S>(
    state: ProtocolView<S>,
    known: Map<H256, EntryView>,
    peer: PeerId,
    id: RequestId,
    data: Option<(Seq<u8>, H256)>,
)
    requires
        sound(state),
        state.numbers_for(1),
    ensures
        sound(state.block_data(known, peer, id, data).state),
{
    if state.awaits(peer, id) {
        let request = state.in_flight[id].request;
        let landed = ProtocolView { in_flight: state.in_flight.remove(id), ..state };
        let again = ProtocolView { pending: landed.pending.push(request), ..landed };
        lemma_collators_stay_apart(state, landed);
        lemma_collators_stay_apart(state, again);
        assert(sound(landed));
        assert(sound(again));
        law_dispatch_is_sound(again, known);
    }
}

/// A new session keeps a state sound.
pub proof fn law_new_consensus_is_sound<S>(
    state: ProtocolView<S>,
    consensus: CurrentConsensus,
    told: Seq<PeerId>,
)
    requires
        sound(state),
    ensures
        sound(state.new_consensus(consensus, told).state),
{
    lemma_collators_stay_apart(state, state.new_consensus(consensus, told).state);
}

/// A session key keeps a state sound.
pub proof fn law_session_key_is_sound<S>(
    state: ProtocolView<S>,
    known: Map<H256, EntryView>,
    peer: PeerId,
    key: SessionKey,
)
    requires
        sound(state),
        state.numbers_for(0),
    ensures
        sound(state.session_key(known, peer, key).state),
{
    if state.peers.contains_key(peer) && state.peers[peer].claimed_validator {
        let info = state.peers[peer];
        let kept = match info.validator_key {
            Some(before) => state.validators.remove(before),
            None => state.validators,
        };
        let noted = ProtocolView {
            peers: state.peers.insert(peer, PeerInfo { validator_key: Some(key), ..info }),
            validators: kept.insert(key, peer),
            ..state
        };
        lemma_collators_stay_apart(state, noted);
        assert forall|k: SessionKey| #[trigger] noted.validators.contains_key(k) implies
            noted.peers.contains_key(noted.validators[k])
                && noted.peers[noted.validators[k]].validator_key == Some(k)
                && noted.peers[noted.validators[k]].claimed_validator by {
            if k != key {
                assert(state.validators.contains_key(k));
            }
        }
        assert forall|id: RequestId| #[trigger] noted.in_flight.contains_key(id) implies
            noted.peers.contains_key(noted.in_flight[id].peer) by {
            assert(state.in_flight.contains_key(id));
        }
        assert(noted.numbers_given());
        assert(sound(noted));
        law_dispatch_is_sound(noted, known);
    }
}

/// A peer that was not connected and connects keeps a state sound.
pub proof fn law_connect_is_sound<S>(
    state: ProtocolView<S>,
    known: Map<H256, EntryView>,
    peer: PeerId,
    claim: Option<(AccountId, ParaId)>,
    roles: Roles,
)
    requires
        sound(state),
        state.numbers_for(0),
        !state.peers.contains_key(peer),
    ensures
        sound(state.connect(known, peer, claim, roles).state),
{
    if !state.claim_taken(claim) {
        let info = PeerInfo {
            collating_for: claim,
            validator_key: None,
            claimed_validator: roles.authority,
        };
        let joined = ProtocolView { peers: state.peers.insert(peer, info), ..state };
        assert forall|p: PeerId, q: PeerId, a: AccountId| #[trigger]
            joined.collates_as(p, a) && #[trigger] joined.collates_as(q, a) implies p == q by {
            if p != peer {
                assert(state.collates_as(p, a));
            }
            if q != peer {
                assert(state.collates_as(q, a));
            }
        }
        assert forall|k: SessionKey| #[trigger] joined.validators.contains_key(k) implies
            joined.peers.contains_key(joined.validators[k])
                && joined.peers[joined.validators[k]].validator_key == Some(k)
                && joined.peers[joined.validators[k]].claimed_validator by {
            assert(state.validators.contains_key(k));
        }
        assert forall|id: RequestId| #[trigger] joined.in_flight.contains_key(id) implies
            joined.peers.contains_key(joined.in_flight[id].peer) by {
            assert(state.in_flight.contains_key(id));
        }
        assert(joined.numbers_given());
        assert(sound(joined));
        law_dispatch_is_sound(joined, known);
    }
}

/// A peer that disconnects keeps a state sound.
pub proof fn law_disconnect_is_sound<S>(
    state: ProtocolView<S>,
    known: Map<H256, EntryView>,
    peer: PeerId,
    order: Seq<RequestId>,
)
    requires
        sound(state),
        state.numbers_for(state.flights_to(peer).len()),
        state.lists_flights(peer, order),
    ensures
        sound(state.disconnect(known, peer, order).state),
{
    if state.peers.contains_key(peer) {
        let left = state.without_peer(peer, order);
        lemma_listed_len(state, peer, order);
        lemma_collators_stay_apart(state, left);
        assert forall|k: SessionKey| #[trigger] left.validators.contains_key(k) implies
            left.peers.contains_key(left.validators[k])
                && left.peers[left.validators[k]].validator_key == Some(k)
                && left.peers[left.validators[k]].claimed_validator by {
            assert(state.validators.contains_key(k));
        }
        assert forall|id: RequestId| #[trigger] left.in_flight.contains_key(id) implies
            left.peers.contains_key(left.in_flight[id].peer) by {
            assert(state.in_flight.contains_key(id));
            assert(!state.flights_to(peer).contains(id));
        }
        assert(left.numbers_given()) by {
            assert forall|id: RequestId| #[trigger] left.in_flight.contains_key(id) implies id
                < left.next_req_id by {
                assert(state.in_flight.contains_key(id));
            }
        }
        assert(sound(left));
        law_dispatch_is_sound(left, known);
    }
}

/// Maintaining the peers keeps a state sound.
pub proof fn law_maintain_is_sound<S>(state: ProtocolView<S>, known: Map<H256, EntryView>)
    requires
        sound(state),
        state.numbers_for(0),
    ensures
        sound(state.maintain(known).state),
{
    law_dispatch_is_sound(state, known);
}

/// A message keeps a state sound.
pub proof fn law_message_is_sound<S>(
    state: ProtocolView<S>,
    known: Map<H256, EntryView>,
    peer: PeerId,
    raw: Seq<u8>,
    message: MessageView,
)
    requires
        sound(state),
        state.numbers_for_message(message),
    ensures
        sound(state.message(known, peer, raw, message).state),
{
    match message {
        MessageView::SessionKey(key) => law_session_key_is_sound(state, known, peer, key),
        MessageView::BlockData(id, None) => law_block_data_is_sound(state, known, peer, id, None),
        _ => {},
    }
}

/// The bytes that a peer sends keep a state sound, whatever they are.
pub proof fn law_bytes_are_sound<S>(
    state: ProtocolView<S>,
    known: Map<H256, EntryView>,
    peer: PeerId,
    raw: Seq<u8>,
    read_len: Option<usize>,
)
    requires
        sound(state),
        state.numbers_for_bytes(raw, read_len),
    ensures
        sound(state.chain_specific(known, peer, raw, read_len).state),
{
    if let Some(message) = MessageView::received(raw, read_len) {
        law_message_is_sound(state, known, peer, raw, message);
    }
}

} // verus!
