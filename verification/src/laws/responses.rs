//! What holds of the responses to requests, and of who waits for them.
use vstd::prelude::*;

use crate::action::{ActionView, Misbehavior};
use crate::knowledge::{block_data_of, EntryView};
use crate::laws::dispatch::{answers, asks_for, is_live, law_dispatch_actions,
    law_dispatch_forgets_nobody, law_dispatch_frame, lemma_after_answers, waits};
use crate::model::{lemma_listed_len, PeerInfo, ProtocolView};
use crate::primitives::{AccountId, H256, ParaId, PeerId, RequestId, Roles, SessionKey};

verus! {

/// The data that was asked for goes to who asked, and the request is over.
pub proof fn law_right_data_is_handed_over<S>(
    state: ProtocolView<S>,
    known: Map<H256, EntryView>,
    peer: PeerId,
    id: RequestId,
    data: Seq<u8>,
    hash: H256,
)
    requires
        state.awaits(peer, id),
        state.in_flight[id].request.block_data_hash == hash,
    ensures
        ({
            let step = state.block_data(known, peer, id, Some((data, hash)));
            &&& step.actions == seq![
                ActionView::AnswerBlockData(state.in_flight[id].request.sender, data),
            ]
            &&& step.state == ProtocolView { in_flight: state.in_flight.remove(id), ..state }
        }),
{
}

/// Data with another hash than the one asked for is handed to nobody: what is handed over then is
/// data that is here, to who waits for it.
pub proof fn law_wrong_data_is_not_handed_over<S>(
    state: ProtocolView<S>,
    known: Map<H256, EntryView>,
    peer: PeerId,
    id: RequestId,
    data: Option<(Seq<u8>, H256)>,
    sender: S,
    handed: Seq<u8>,
)
    requires
        state.awaits(peer, id),
        data matches Some((_, hash)) ==> hash != state.in_flight[id].request.block_data_hash,
        state.block_data(known, peer, id, data).actions.contains(
            ActionView::AnswerBlockData(sender, handed),
        ),
    ensures
        ({
            let waiting = state.pending.push(state.in_flight[id].request);
            exists|i: int|
                #![trigger waiting[i]]
                0 <= i < waiting.len() && waiting[i].sender == sender && block_data_of(
                    known,
                    waiting[i].candidate_hash,
                ) == Some(handed)
        }),
{
    let request = state.in_flight[id].request;
    let landed = ProtocolView { in_flight: state.in_flight.remove(id), ..state };
    let again = ProtocolView { pending: landed.pending.push(request), ..landed };
    let cleared = ProtocolView { pending: seq![], ..again };
    law_dispatch_actions(
        cleared,
        known,
        again.pending,
        ActionView::AnswerBlockData(sender, handed),
    );
}

/// A request is responded to once: after a response its number is free of any request, and
/// another response under it counts against its sender.
pub proof fn law_one_response<S>(
    state: ProtocolView<S>,
    known: Map<H256, EntryView>,
    peer: PeerId,
    id: RequestId,
    data: Option<(Seq<u8>, H256)>,
    known_later: Map<H256, EntryView>,
    other: PeerId,
    more: Option<(Seq<u8>, H256)>,
)
    requires
        state.numbers_given(),
        state.numbers_for(1),
        state.awaits(peer, id),
    ensures
        ({
            let after = state.block_data(known, peer, id, data).state;
            &&& !after.in_flight.contains_key(id)
            &&& after.block_data(known_later, other, id, more) == after.just(
                ActionView::DisablePeer(other, Misbehavior::UnexpectedBlockData),
            )
        }),
{
    let request = state.in_flight[id].request;
    let landed = ProtocolView { in_flight: state.in_flight.remove(id), ..state };
    let again = ProtocolView { pending: landed.pending.push(request), ..landed };
    let cleared = ProtocolView { pending: seq![], ..again };
    assert(cleared.numbers_given());
    law_dispatch_frame(cleared, known, again.pending);
    assert(!cleared.in_flight.contains_key(id));
}

/// Nobody but the peer that was asked can respond to a request.
pub proof fn law_only_the_asked_respond<S>(
    state: ProtocolView<S>,
    known: Map<H256, EntryView>,
    peer: PeerId,
    id: RequestId,
    data: Option<(Seq<u8>, H256)>,
)
    requires
        !state.awaits(peer, id),
    ensures
        state.block_data(known, peer, id, data) == state.just(
            ActionView::DisablePeer(peer, Misbehavior::UnexpectedBlockData),
        ),
{
}

/// While its session is live, whoever waits for block data when a peer responds is answered or
/// goes on waiting.
pub proof fn law_block_data_forgets_nobody<S>(
    state: ProtocolView<S>,
    known: Map<H256, EntryView>,
    peer: PeerId,
    id: RequestId,
    data: Option<(Seq<u8>, H256)>,
    sender: S,
    parent: H256,
)
    requires
        state.numbers_given(),
        state.numbers_for(1),
        is_live(state, parent),
        waits(state, sender, parent),
    ensures
        ({
            let step = state.block_data(known, peer, id, data);
            waits(step.state, sender, parent) || answers(step, sender)
        }),
{
    if state.awaits(peer, id) {
        let step = state.block_data(known, peer, id, data);
        let request = state.in_flight[id].request;
        let landed = ProtocolView { in_flight: state.in_flight.remove(id), ..state };
        let again = ProtocolView { pending: landed.pending.push(request), ..landed };
        let mine = request.sender == sender && request.consensus_parent == parent;
        assert(again.numbers_given());
        if asks_for(state.pending, sender, parent) {
            let i = choose|i: int|
                #![trigger state.pending[i]]
                0 <= i < state.pending.len() && state.pending[i].sender == sender
                    && state.pending[i].consensus_parent == parent;
            assert(landed.pending[i] == state.pending[i]);
            assert(again.pending[i] == state.pending[i]);
        } else {
            let other = choose|k: RequestId| #[trigger]
                state.in_flight.contains_key(k) && state.in_flight[k].request.sender == sender
                    && state.in_flight[k].request.consensus_parent == parent;
            if other != id {
                assert(landed.in_flight.contains_key(other));
                assert(again.in_flight.contains_key(other));
            }
        }
        if mine {
            assert(again.pending[state.pending.len() as int] == request);
            if let Some((bytes, hash)) = data {
                if hash == request.block_data_hash {
                    assert(step.actions[0] == ActionView::AnswerBlockData(sender, bytes));
                    assert(step.actions.contains(ActionView::AnswerBlockData(sender, bytes)));
                }
            }
        }
        law_dispatch_forgets_nobody(again, known, sender, parent);
    }
}

/// A session key makes nobody forgotten whose session is live.
pub proof fn law_session_key_forgets_nobody<S>(
    state: ProtocolView<S>,
    known: Map<H256, EntryView>,
    peer: PeerId,
    key: SessionKey,
    sender: S,
    parent: H256,
)
    requires
        state.numbers_given(),
        state.numbers_for(0),
        is_live(state, parent),
        waits(state, sender, parent),
    ensures
        ({
            let step = state.session_key(known, peer, key);
            waits(step.state, sender, parent) || answers(step, sender)
        }),
{
    if state.peers.contains_key(peer) && state.peers[peer].claimed_validator {
        let info = state.peers[peer];
        let (kept, actions) = match info.validator_key {
            Some(before) => (
                state.validators.remove(before),
                seq![ActionView::FreshKey(peer, before, key)],
            ),
            None => (state.validators, seq![]),
        };
        let noted = ProtocolView {
            peers: state.peers.insert(peer, PeerInfo { validator_key: Some(key), ..info }),
            validators: kept.insert(key, peer),
            ..state
        };
        lemma_same_requests(state, noted, sender, parent);
        law_dispatch_forgets_nobody(noted, known, sender, parent);
        if answers(noted.dispatch(known), sender) {
            lemma_after_answers(noted.dispatch(known), actions, sender);
        }
    }
}

/// Whoever waits in a state waits in one with the same requests.
proof fn lemma_same_requests<S>(
    before: ProtocolView<S>,
    after: ProtocolView<S>,
    sender: S,
    parent: H256,
)
    requires
        before.numbers_given(),
        waits(before, sender, parent),
        after.pending == before.pending,
        after.in_flight == before.in_flight,
        after.next_req_id == before.next_req_id,
    ensures
        after.numbers_given(),
        waits(after, sender, parent),
{
}

/// A peer that connects makes nobody forgotten whose session is live.
pub proof fn law_connect_forgets_nobody<S>(
    state: ProtocolView<S>,
    known: Map<H256, EntryView>,
    peer: PeerId,
    claim: Option<(AccountId, ParaId)>,
    roles: Roles,
    sender: S,
    parent: H256,
)
    requires
        state.numbers_given(),
        state.numbers_for(0),
        is_live(state, parent),
        waits(state, sender, parent),
    ensures
        ({
            let step = state.connect(known, peer, claim, roles);
            waits(step.state, sender, parent) || answers(step, sender)
        }),
{
    if !state.claim_taken(claim) {
        let info = PeerInfo {
            collating_for: claim,
            validator_key: None,
            claimed_validator: roles.authority,
        };
        let joined = ProtocolView { peers: state.peers.insert(peer, info), ..state };
        let step = state.connect(known, peer, claim, roles);
        lemma_same_requests(state, joined, sender, parent);
        law_dispatch_forgets_nobody(joined, known, sender, parent);
        if answers(joined.dispatch(known), sender) {
            let n = step.actions.len() - joined.dispatch(known).actions.len();
            lemma_after_answers(joined.dispatch(known), step.actions.take(n), sender);
            assert(step =~= joined.dispatch(known).after(step.actions.take(n)));
        }
    }
}

/// A peer that disconnects makes nobody forgotten whose session is live: what it was asked is
/// answered, asked of others or pending.
pub proof fn law_disconnect_forgets_nobody<S>(
    state: ProtocolView<S>,
    known: Map<H256, EntryView>,
    peer: PeerId,
    order: Seq<RequestId>,
    sender: S,
    parent: H256,
)
    requires
        state.numbers_given(),
        state.numbers_for(state.flights_to(peer).len()),
        state.lists_flights(peer, order),
        is_live(state, parent),
        waits(state, sender, parent),
    ensures
        ({
            let step = state.disconnect(known, peer, order);
            waits(step.state, sender, parent) || answers(step, sender)
        }),
{
    if state.peers.contains_key(peer) {
        let left = state.without_peer(peer, order);
        let step = state.disconnect(known, peer, order);
        lemma_listed_len(state, peer, order);
        assert forall|id: RequestId| #[trigger] left.in_flight.contains_key(id) implies id
            < left.next_req_id by {
            assert(state.in_flight.contains_key(id));
        }
        if asks_for(state.pending, sender, parent) {
            let i = choose|i: int|
                #![trigger state.pending[i]]
                0 <= i < state.pending.len() && state.pending[i].sender == sender
                    && state.pending[i].consensus_parent == parent;
            assert(left.pending[i] == state.pending[i]);
        } else {
            let id = choose|k: RequestId| #[trigger]
                state.in_flight.contains_key(k) && state.in_flight[k].request.sender == sender
                    && state.in_flight[k].request.consensus_parent == parent;
            if state.flights_to(peer).contains(id) {
                assert(order.to_set().contains(id));
                let c = choose|c: int| 0 <= c < order.len() && order[c] == id;
                assert(left.pending[state.pending.len() + c] == state.in_flight[id].request);
            } else {
                assert(left.in_flight.contains_key(id));
            }
        }
        assert(waits(left, sender, parent));
        law_dispatch_forgets_nobody(left, known, sender, parent);
        if answers(left.dispatch(known), sender) {
            let n = step.actions.len() - left.dispatch(known).actions.len();
            lemma_after_answers(left.dispatch(known), step.actions.take(n), sender);
            assert(step =~= left.dispatch(known).after(step.actions.take(n)));
        }
    }
}

/// Maintaining the peers makes nobody forgotten whose session is live.
pub proof fn law_maintain_forgets_nobody<S>(
    state: ProtocolView<S>,
    known: Map<H256, EntryView>,
    sender: S,
    parent: H256,
)
    requires
        state.numbers_given(),
        state.numbers_for(0),
        is_live(state, parent),
        waits(state, sender, parent),
    ensures
        waits(state.maintain(known).state, sender, parent) || answers(
            state.maintain(known),
            sender,
        ),
{
    law_dispatch_forgets_nobody(state, known, sender, parent);
    if answers(state.dispatch(known), sender) {
        let step = state.dispatch(known);
        let data = choose|data: Seq<u8>| #[trigger]
            step.actions.contains(ActionView::AnswerBlockData(sender, data));
        let answer = ActionView::AnswerBlockData(sender, data);
        let i = choose|i: int| 0 <= i < step.actions.len() && step.actions[i] == answer;
        assert(state.maintain(known).actions[3 + i] == answer);
        assert(state.maintain(known).actions.contains(answer));
    }
}

} // verus!
