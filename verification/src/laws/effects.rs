//! What each event does to each part of the state, and what it asks for.
use vstd::prelude::*;

use crate::action::{ActionView, Misbehavior};
use crate::knowledge::{block_data_of, EntryView};
use crate::laws::dispatch::{is_live, law_dispatch_actions, law_dispatch_frame,
    law_dispatch_leaves_peers_alone, law_first_askable};
use crate::message::MessageView;
use crate::model::{first_askable, CurrentConsensus, PeerInfo, ProtocolView, RequestView};
use crate::primitives::{AccountId, CandidateReceipt, H256, ParaId, PeerId, RequestId, Role, Roles,
    SessionKey};

verus! {

// The state.

/// A node starts with no peers, no session and no requests, and its first request is number one.
pub proof fn law_fresh_state<S>(
    collating_for: Option<(AccountId, ParaId)>,
    peer: PeerId,
    key: SessionKey,
    id: RequestId,
)
    ensures
        ({
            let state = ProtocolView::<S>::initial(collating_for);
            &&& state.collating_for == collating_for
            &&& !state.peers.contains_key(peer)
            &&& !state.validators.contains_key(key)
            &&& !state.in_flight.contains_key(id)
            &&& state.pending.len() == 0
            &&& state.live_consensus is None
            &&& state.next_req_id == 1
        }),
{
}

/// Who is waited for, who collates under an account and who is told a session key can be read off
/// the tables.
pub proof fn law_tables_say<S>(
    state: ProtocolView<S>,
    peer: PeerId,
    id: RequestId,
    account: AccountId,
    para: ParaId,
)
    ensures
        state.awaits(peer, id) <==> state.in_flight.contains_key(id) && state.in_flight[id].peer
            == peer,
        state.flights_to(peer).contains(id) <==> state.in_flight.contains_key(id)
            && state.in_flight[id].peer == peer,
        state.collates_as(peer, account) <==> state.peers.contains_key(peer) && exists|p: ParaId|
            state.peers[peer].collating_for == Some((account, p)),
        state.peers.contains_key(peer) && state.peers[peer].collating_for == Some((account, para))
            ==> state.collates_as(peer, account),
        state.key_holders().contains(peer) <==> state.peers.contains_key(peer) && (
        state.peers[peer].claimed_validator || state.peers[peer].collating_for is Some),
{
    if state.collates_as(peer, account) {
        let (a, p) = state.peers[peer].collating_for->0;
        assert(state.peers[peer].collating_for == Some((account, p)));
    }
}

/// A session is live if it is the one that has been started last, which its parent tells.
pub proof fn law_live_session_says<S>(
    state: ProtocolView<S>,
    consensus: CurrentConsensus,
    told: Seq<PeerId>,
    parent: H256,
    collating_for: Option<(AccountId, ParaId)>,
)
    ensures
        is_live(state.new_consensus(consensus, told).state, parent) <==> parent
            == consensus.parent_hash,
        !is_live(ProtocolView::<S>::initial(collating_for), parent),
        is_live(state, parent) <==> state.live_consensus is Some
            && state.live_consensus->0.parent_hash == parent,
{
}

/// An order of a peer's requests names each of them once and no other.
pub proof fn law_order_lists<S>(
    state: ProtocolView<S>,
    peer: PeerId,
    order: Seq<RequestId>,
    id: RequestId,
)
    requires
        state.lists_flights(peer, order),
    ensures
        order.no_duplicates(),
        order.contains(id) <==> state.in_flight.contains_key(id) && state.in_flight[id].peer
            == peer,
{
    assert(order.to_set().contains(id) <==> state.flights_to(peer).contains(id));
}

/// There are numbers left as long as none would go over the largest.
pub proof fn law_numbers_say<S>(
    state: ProtocolView<S>,
    more: nat,
    message: MessageView,
    raw: Seq<u8>,
    read_len: Option<usize>,
)
    ensures
        state.numbers_for(more) <==> state.next_req_id + state.pending.len() + more <= u64::MAX,
        state.numbers_for(1) ==> state.numbers_for_message(message),
        state.numbers_for(1) ==> state.numbers_for_bytes(raw, read_len),
{
}

/// In a state in order no two peers collate under one account, and the numbers in flight have been
/// given out.
pub proof fn law_order_says<S>(
    state: ProtocolView<S>,
    p: PeerId,
    q: PeerId,
    account: AccountId,
    id: RequestId,
)
    requires
        state.wf(),
    ensures
        state.collates_as(p, account) && state.collates_as(q, account) ==> p == q,
        state.in_flight.contains_key(id) ==> id < state.next_req_id,
{
}

// Dispatch.

/// Requests are dealt with in their order: those of two lists one after the other are those of the
/// first and then those of the second.
pub proof fn law_requests_in_turn<S>(
    state: ProtocolView<S>,
    known: Map<H256, EntryView>,
    a: Seq<RequestView<S>>,
    b: Seq<RequestView<S>>,
)
    ensures
        ({
            let first = state.dispatch_each(known, a);
            let second = first.state.dispatch_each(known, b);
            &&& state.dispatch_each(known, a + b).state == second.state
            &&& state.dispatch_each(known, a + b).actions == first.actions + second.actions
        }),
    decreases b.len(),
{
    let first = state.dispatch_each(known, a);
    if b.len() == 0 {
        assert(a + b =~= a);
        assert(first.actions + first.state.dispatch_each(known, b).actions =~= first.actions);
    } else {
        law_requests_in_turn(state, known, a, b.drop_last());
        assert((a + b).drop_last() =~= a + b.drop_last());
        assert((a + b).last() == b.last());
        assert(state.dispatch_each(known, a + b).actions =~= first.actions
            + first.state.dispatch_each(known, b).actions);
    }
}

/// No requests, no effect.
pub proof fn law_no_requests<S>(state: ProtocolView<S>, known: Map<H256, EntryView>)
    ensures
        state.dispatch_each(known, seq![]).state == state,
        state.dispatch_each(known, seq![]).actions.len() == 0,
        state.pending.len() == 0 ==> state.dispatch(known).state == state,
        state.pending.len() == 0 ==> state.dispatch(known).actions.len() == 0,
{
    if state.pending.len() == 0 {
        assert(state.pending =~= seq![]);
        assert(ProtocolView { pending: seq![], ..state } =~= state);
    }
}

/// One more pending request is dealt with after the others and does not change what becomes of
/// them.
pub proof fn law_one_more_request<S>(
    state: ProtocolView<S>,
    known: Map<H256, EntryView>,
    request: RequestView<S>,
)
    ensures
        ({
            let others = state.dispatch(known);
            let last = others.state.dispatch_each(known, seq![request]);
            let all = ProtocolView { pending: state.pending.push(request), ..state }.dispatch(
                known,
            );
            &&& all.state == last.state
            &&& all.actions == others.actions + last.actions
        }),
{
    let cleared = ProtocolView { pending: seq![], ..state };
    let more = ProtocolView { pending: state.pending.push(request), ..state };
    assert(ProtocolView { pending: seq![], ..more } =~= cleared);
    assert(more.pending =~= state.pending + seq![request]);
    law_requests_in_turn(cleared, known, state.pending, seq![request]);
}

/// A request by itself.
proof fn lemma_single<S>(
    state: ProtocolView<S>,
    known: Map<H256, EntryView>,
    request: RequestView<S>,
)
    ensures
        state.dispatch_each(known, seq![request]) == state.dispatch_one(known, request),
{
    let one = seq![request];
    assert(one.drop_last() =~= seq![]);
    assert(one.last() == request);
    assert(state.dispatch_each(known, seq![]) == state.idle());
    assert(state.dispatch_each(known, one).actions =~= state.dispatch_one(
        known,
        request,
    ).actions);
}

/// A request of a session that is not live is dropped without a trace.
pub proof fn law_stale_request_is_dropped<S>(
    state: ProtocolView<S>,
    known: Map<H256, EntryView>,
    request: RequestView<S>,
)
    requires
        !is_live(state, request.consensus_parent),
    ensures
        state.dispatch_each(known, seq![request]).state == state,
        state.dispatch_each(known, seq![request]).actions.len() == 0,
{
    lemma_single(state, known, request);
}

/// A request of the live session whose block data is here is answered with it.
pub proof fn law_request_is_answered<S>(
    state: ProtocolView<S>,
    known: Map<H256, EntryView>,
    request: RequestView<S>,
    data: Seq<u8>,
)
    requires
        is_live(state, request.consensus_parent),
        known.contains_key(request.candidate_hash),
        known[request.candidate_hash].block_data == Some(data),
    ensures
        state.dispatch_each(known, seq![request]).state == state,
        state.dispatch_each(known, seq![request]).actions == seq![
            ActionView::AnswerBlockData(request.sender, data),
        ],
{
    lemma_single(state, known, request);
}

/// A request of the live session whose block data is not here goes to the first validator, in the
/// order in which they are known to have it, that is connected and has not been asked: it is sent
/// the next number and the candidate, and the request waits for it as it was, but for the key that
/// is noted with it. Nothing else changes.
pub proof fn law_request_is_asked<S>(
    state: ProtocolView<S>,
    known: Map<H256, EntryView>,
    request: RequestView<S>,
    i: int,
    other: RequestId,
)
    requires
        is_live(state, request.consensus_parent),
        known.contains_key(request.candidate_hash),
        known[request.candidate_hash].block_data is None,
        0 <= i < known[request.candidate_hash].knows_block_data.len(),
        state.validators.contains_key(known[request.candidate_hash].knows_block_data[i]),
        !request.attempted_peers.contains(known[request.candidate_hash].knows_block_data[i]),
        forall|j: int|
            #![trigger known[request.candidate_hash].knows_block_data[j]]
            0 <= j < i ==> !state.validators.contains_key(
                known[request.candidate_hash].knows_block_data[j],
            ) || request.attempted_peers.contains(
                known[request.candidate_hash].knows_block_data[j],
            ),
        state.next_req_id <= u64::MAX,
    ensures
        ({
            let key = known[request.candidate_hash].knows_block_data[i];
            let id = state.next_req_id as u64;
            let step = state.dispatch_each(known, seq![request]);
            let after = step.state;
            &&& step.actions == seq![
                ActionView::<S>::SendMessage(
                    state.validators[key],
                    MessageView::RequestBlockData(id, request.candidate_hash),
                ),
            ]
            &&& after.in_flight.contains_key(id)
            &&& after.in_flight[id].peer == state.validators[key]
            &&& after.in_flight[id].request.attempted_peers == request.attempted_peers.insert(key)
            &&& after.in_flight[id].request.consensus_parent == request.consensus_parent
            &&& after.in_flight[id].request.candidate_hash == request.candidate_hash
            &&& after.in_flight[id].request.block_data_hash == request.block_data_hash
            &&& after.in_flight[id].request.sender == request.sender
            &&& other != id ==> after.in_flight.contains_key(other)
                == state.in_flight.contains_key(other) && after.in_flight[other]
                == state.in_flight[other]
            &&& after.next_req_id == state.next_req_id + 1
            &&& after.pending == state.pending
            &&& after.peers == state.peers
            &&& after.validators == state.validators
            &&& after.live_consensus == state.live_consensus
            &&& after.collating_for == state.collating_for
        }),
{
    lemma_single(state, known, request);
    let knows = known[request.candidate_hash].knows_block_data;
    let key = knows[i];
    law_first_askable(knows, state.validators, request.attempted_peers);
    let found = first_askable(knows, state.validators, request.attempted_peers);
    assert(found is Some);
    let at = choose|c: int|
        #![trigger knows[c]]
        0 <= c < knows.len() && knows[c] == found->0 && state.validators.contains_key(found->0)
            && !request.attempted_peers.contains(found->0) && forall|j: int|
            #![trigger knows[j]]
            0 <= j < c ==> !state.validators.contains_key(knows[j])
                || request.attempted_peers.contains(knows[j]);
    assert(at == i) by {
        if at < i {
            assert(!state.validators.contains_key(knows[at])
                || request.attempted_peers.contains(knows[at]));
        }
    }
}

/// A request of the live session whose block data is not here and for which nobody can be asked
/// stays pending, last, as it was. Nothing is done.
pub proof fn law_request_waits<S>(
    state: ProtocolView<S>,
    known: Map<H256, EntryView>,
    request: RequestView<S>,
)
    requires
        is_live(state, request.consensus_parent),
        known.contains_key(request.candidate_hash) ==> {
            let entry = known[request.candidate_hash];
            entry.block_data is None && forall|j: int|
                #![trigger entry.knows_block_data[j]]
                0 <= j < entry.knows_block_data.len() ==> !state.validators.contains_key(
                    entry.knows_block_data[j],
                ) || request.attempted_peers.contains(entry.knows_block_data[j])
        },
    ensures
        ({
            let step = state.dispatch_each(known, seq![request]);
            &&& step.actions.len() == 0
            &&& step.state.pending == state.pending.push(request)
            &&& step.state.in_flight == state.in_flight
            &&& step.state.next_req_id == state.next_req_id
            &&& step.state.peers == state.peers
            &&& step.state.validators == state.validators
            &&& step.state.live_consensus == state.live_consensus
            &&& step.state.collating_for == state.collating_for
        }),
{
    lemma_single(state, known, request);
    if known.contains_key(request.candidate_hash) {
        law_first_askable(
            known[request.candidate_hash].knows_block_data,
            state.validators,
            request.attempted_peers,
        );
    }
}

// Requests and responses.

/// Fetching block data is to add a request to the pending ones and to deal with them: one that has
/// been asked of nobody, of the given session, for the candidate that the receipt names, which
/// waits for data with the hash that the receipt gives, on behalf of the sender.
pub proof fn law_fetch_asks_for_what_the_receipt_says<S>(
    state: ProtocolView<S>,
    known: Map<H256, EntryView>,
    candidate: CandidateReceipt,
    relay_parent: H256,
    sender: S,
    request: RequestView<S>,
)
    requires
        request.attempted_peers == Set::<SessionKey>::empty(),
        request.consensus_parent == relay_parent,
        request.candidate_hash == candidate.hash,
        request.block_data_hash == candidate.block_data_hash,
        request.sender == sender,
    ensures
        ({
            let others = state.dispatch(known);
            let own = others.state.dispatch_each(known, seq![request]);
            let step = state.fetch(known, candidate, relay_parent, sender);
            &&& step.state == own.state
            &&& step.actions == others.actions + own.actions
        }),
{
    law_one_more_request(state, known, request);
}

/// A failed response (nothing, or data with another hash) puts the request back just as it was,
/// behind the pending ones, and they are dealt with.
pub proof fn law_failed_response_puts_the_request_back<S>(
    state: ProtocolView<S>,
    known: Map<H256, EntryView>,
    peer: PeerId,
    id: RequestId,
    data: Option<(Seq<u8>, H256)>,
    returned: ProtocolView<S>,
)
    requires
        state.in_flight.contains_key(id),
        state.in_flight[id].peer == peer,
        data matches Some((_, hash)) ==> hash != state.in_flight[id].request.block_data_hash,
        returned.in_flight == state.in_flight.remove(id),
        returned.pending == state.pending.push(state.in_flight[id].request),
        returned.peers == state.peers,
        returned.validators == state.validators,
        returned.live_consensus == state.live_consensus,
        returned.collating_for == state.collating_for,
        returned.next_req_id == state.next_req_id,
    ensures
        state.block_data(known, peer, id, data).state == returned.dispatch(known).state,
        state.block_data(known, peer, id, data).actions == returned.dispatch(known).actions,
{
    let request = state.in_flight[id].request;
    assert(returned =~= ProtocolView {
        in_flight: state.in_flight.remove(id),
        pending: state.pending.push(request),
        ..state
    });
}

/// A retry succeeds: where a response fails and the request goes to another validator, the data
/// that the request was for, from that validator, goes to who asked for it in the first place.
pub proof fn law_retry_succeeds<S>(
    state: ProtocolView<S>,
    known: Map<H256, EntryView>,
    peer: PeerId,
    id: RequestId,
    failed: Option<(Seq<u8>, H256)>,
    i: int,
    known_later: Map<H256, EntryView>,
    data: Seq<u8>,
)
    requires
        state.numbers_given(),
        state.numbers_for(1),
        state.in_flight.contains_key(id),
        state.in_flight[id].peer == peer,
        failed matches Some((_, hash)) ==> hash != state.in_flight[id].request.block_data_hash,
        is_live(state, state.in_flight[id].request.consensus_parent),
        ({
            let request = state.in_flight[id].request;
            let entry = known[request.candidate_hash];
            &&& known.contains_key(request.candidate_hash)
            &&& entry.block_data is None
            &&& 0 <= i < entry.knows_block_data.len()
            &&& state.validators.contains_key(entry.knows_block_data[i])
            &&& !request.attempted_peers.contains(entry.knows_block_data[i])
            &&& forall|j: int|
                #![trigger entry.knows_block_data[j]]
                0 <= j < i ==> !state.validators.contains_key(entry.knows_block_data[j])
                    || request.attempted_peers.contains(entry.knows_block_data[j])
        }),
    ensures
        ({
            let request = state.in_flight[id].request;
            let next = state.validators[known[request.candidate_hash].knows_block_data[i]];
            let retried = state.block_data(known, peer, id, failed);
            let number = (retried.state.next_req_id - 1) as u64;
            &&& retried.actions.last() == ActionView::<S>::SendMessage(
                next,
                MessageView::RequestBlockData(number, request.candidate_hash),
            )
            &&& retried.actions.len() > 0
            &&& retried.state.block_data(
                known_later,
                next,
                number,
                Some((data, request.block_data_hash)),
            ).actions == seq![ActionView::AnswerBlockData(request.sender, data)]
        }),
{
    let request = state.in_flight[id].request;
    let landed = ProtocolView { in_flight: state.in_flight.remove(id), ..state };
    let cleared = ProtocolView { pending: seq![], ..landed };
    let returned = ProtocolView { pending: state.pending.push(request), ..landed };
    law_failed_response_puts_the_request_back(state, known, peer, id, failed, returned);
    law_one_more_request(landed, known, request);
    assert(cleared.numbers_given());
    law_dispatch_frame(cleared, known, landed.pending);
    let others = landed.dispatch(known);
    law_request_is_asked(others.state, known, request, i, 0);
    let last = others.state.dispatch_each(known, seq![request]);
    assert(state.block_data(known, peer, id, failed).actions == others.actions + last.actions);
}

// Sessions.

/// After a new session the live session is the one given, its key as well as its parent, and all
/// else is as it was.
pub proof fn law_new_session_is_live<S>(
    state: ProtocolView<S>,
    consensus: CurrentConsensus,
    told: Seq<PeerId>,
)
    ensures
        ({
            let after = state.new_consensus(consensus, told).state;
            &&& after.live_consensus is Some
            &&& after.live_consensus->0.parent_hash == consensus.parent_hash
            &&& after.live_consensus->0.local_session_key == consensus.local_session_key
            &&& after.peers == state.peers
            &&& after.validators == state.validators
            &&& after.in_flight == state.in_flight
            &&& after.pending == state.pending
            &&& after.next_req_id == state.next_req_id
            &&& after.collating_for == state.collating_for
        }),
{
}

/// With a new session each peer that is told is sent the key of that session, in the order given,
/// and gossip then forgets the session before, if there was one.
pub proof fn law_new_session_is_told<S>(
    state: ProtocolView<S>,
    consensus: CurrentConsensus,
    told: Seq<PeerId>,
    i: int,
)
    ensures
        ({
            let actions = state.new_consensus(consensus, told).actions;
            &&& actions.len() == told.len() + 1
            &&& 0 <= i < told.len() ==> actions[i] == ActionView::<S>::SendMessage(
                told[i],
                MessageView::SessionKey(consensus.local_session_key),
            )
            &&& state.live_consensus is None ==> actions.last() == ActionView::<
                S,
            >::GossipCollectGarbage(None)
            &&& state.live_consensus is Some ==> actions.last() == ActionView::<
                S,
            >::GossipCollectGarbage(Some(state.live_consensus->0.parent_hash))
        }),
{
}

/// Who is told: everybody who claims to be a validator or collates, each once, if there was no
/// session or its key was another; else nobody.
pub proof fn law_who_is_told<S>(
    state: ProtocolView<S>,
    consensus: CurrentConsensus,
    told: Seq<PeerId>,
    peer: PeerId,
)
    requires
        state.tells(consensus, told),
    ensures
        ({
            let same = state.live_consensus is Some && state.live_consensus->0.local_session_key
                == consensus.local_session_key;
            &&& same ==> told.len() == 0
            &&& !same ==> told.no_duplicates()
            &&& !same ==> (told.contains(peer) <==> state.peers.contains_key(peer) && (
            state.peers[peer].claimed_validator || state.peers[peer].collating_for is Some))
        }),
{
    if state.key_changes(consensus) {
        assert(told.to_set().contains(peer) <==> state.key_holders().contains(peer));
    }
}

/// A session right after another with the same key is told to nobody.
pub proof fn law_same_key_is_told_once<S>(
    state: ProtocolView<S>,
    first: CurrentConsensus,
    told: Seq<PeerId>,
    second: CurrentConsensus,
    told_later: Seq<PeerId>,
)
    requires
        second.local_session_key == first.local_session_key,
        state.new_consensus(first, told).state.tells(second, told_later),
    ensures
        state.new_consensus(first, told).state.new_consensus(second, told_later).actions == seq![
            ActionView::<S>::GossipCollectGarbage(Some(first.parent_hash)),
        ],
{
    let after = state.new_consensus(first, told).state;
    law_new_session_is_live(state, first, told);
    law_who_is_told(after, second, told_later, 0);
    law_new_session_is_told(after, second, told_later, 0);
}

/// Who connects after a session has started is sent the key of that session, if it is a validator
/// or a collator whose account is free, and nobody else is sent it.
pub proof fn law_connecting_is_told_the_live_key<S>(
    state: ProtocolView<S>,
    consensus: CurrentConsensus,
    told: Seq<PeerId>,
    known: Map<H256, EntryView>,
    peer: PeerId,
    claim: Option<(AccountId, ParaId)>,
    roles: Roles,
    key: SessionKey,
)
    requires
        claim matches Some((account, _)) ==> forall|p: PeerId| !#[trigger]
            state.collates_as(p, account),
    ensures
        ({
            let live = state.new_consensus(consensus, told).state;
            let step = live.connect(known, peer, claim, roles);
            step.actions.contains(
                ActionView::<S>::SendMessage(peer, MessageView::SessionKey(key)),
            ) <==> key == consensus.local_session_key && (roles.authority || claim is Some)
        }),
{
    let live = state.new_consensus(consensus, told).state;
    let step = live.connect(known, peer, claim, roles);
    law_new_session_is_live(state, consensus, told);
    assert(forall|p: PeerId, a: AccountId| #[trigger]
        live.collates_as(p, a) == state.collates_as(p, a));
    law_connect_takes_up(live, known, peer, claim, roles, peer);
    let joined = ProtocolView { peers: step.state.peers, ..live };
    let cleared = ProtocolView { pending: seq![], ..joined };
    let dispatched = joined.dispatch(known);
    let n: int = if claim is Some { 1 } else { 0 };
    let g: int = if roles.authority || claim is Some { 1 } else { 0 };
    let message = ActionView::<S>::SendMessage(peer, MessageView::SessionKey(key));
    if step.actions.contains(message) {
        let i = choose|i: int| 0 <= i < step.actions.len() && step.actions[i] == message;
        if i >= n + 1 + g {
            assert(dispatched.actions[i - (n + 1 + g)] == message);
            law_dispatch_actions(cleared, known, joined.pending, message);
        }
    }
    if key == consensus.local_session_key && g == 1 {
        assert(step.actions[n + 1] == message);
    }
}

// Peers.

/// A peer whose claimed account is free is taken up with what it announced and no key; other peers
/// stay as they are. The collator pool is told of a collator, gossip of the peer and its roles,
/// and a validator or a collator is told the key of the live session. Then the pending requests
/// are dealt with.
pub proof fn law_connect_takes_up<S>(
    state: ProtocolView<S>,
    known: Map<H256, EntryView>,
    peer: PeerId,
    claim: Option<(AccountId, ParaId)>,
    roles: Roles,
    other: PeerId,
)
    requires
        claim matches Some((account, _)) ==> forall|p: PeerId| !#[trigger]
            state.collates_as(p, account),
    ensures
        ({
            let step = state.connect(known, peer, claim, roles);
            let after = step.state;
            let joined = ProtocolView { peers: after.peers, ..state };
            let dispatched = joined.dispatch(known);
            let n: int = if claim is Some { 1 } else { 0 };
            let g: int = if state.live_consensus is Some && (roles.authority || claim is Some) {
                1
            } else {
                0
            };
            &&& after.peers.contains_key(peer)
            &&& after.peers[peer].collating_for == claim
            &&& after.peers[peer].validator_key is None
            &&& after.peers[peer].claimed_validator == roles.authority
            &&& other != peer ==> after.peers.contains_key(other) == state.peers.contains_key(other)
                && after.peers[other] == state.peers[other]
            &&& after.validators == state.validators
            &&& after.live_consensus == state.live_consensus
            &&& after.collating_for == state.collating_for
            &&& after == dispatched.state
            &&& step.actions.len() == n + 1 + g + dispatched.actions.len()
            &&& claim matches Some((account, para)) ==> step.actions[0] == ActionView::<
                S,
            >::NewCollator(peer, account, para)
            &&& step.actions[n] == ActionView::<S>::GossipNewPeer(peer, roles)
            &&& g == 1 ==> step.actions[n + 1] == ActionView::<S>::SendMessage(
                peer,
                MessageView::SessionKey(state.live_consensus->0.local_session_key),
            )
            &&& step.actions.skip(n + 1 + g) == dispatched.actions
        }),
{
    assert(!state.claim_taken(claim));
    let step = state.connect(known, peer, claim, roles);
    let info = PeerInfo {
        collating_for: claim,
        validator_key: None,
        claimed_validator: roles.authority,
    };
    let joined = ProtocolView { peers: state.peers.insert(peer, info), ..state };
    let cleared = ProtocolView { pending: seq![], ..joined };
    law_dispatch_leaves_peers_alone(cleared, known, joined.pending);
    assert(ProtocolView { peers: step.state.peers, ..state } =~= joined);
    let dispatched = joined.dispatch(known);
    let n = step.actions.len() - dispatched.actions.len();
    assert(step.actions.skip(n) =~= dispatched.actions);
}

/// When a peer disconnects the collator pool is told of its account, the local collations of its
/// key and gossip of the peer, as far as it had them; then the requests are dealt with that it
/// leaves behind. `left` is what it leaves: it is not connected, its key leads nowhere, and what it
/// was asked is pending behind what was pending, in the order given and just as it was; all else
/// is as before.
pub proof fn law_disconnect_lets_go<S>(
    state: ProtocolView<S>,
    known: Map<H256, EntryView>,
    peer: PeerId,
    order: Seq<RequestId>,
    left: ProtocolView<S>,
)
    requires
        state.peers.contains_key(peer),
        forall|p: PeerId| #[trigger]
            left.peers.contains_key(p) <==> state.peers.contains_key(p) && p != peer,
        forall|p: PeerId| #[trigger]
            left.peers.contains_key(p) ==> left.peers[p] == state.peers[p],
        forall|k: SessionKey| #[trigger]
            left.validators.contains_key(k) <==> state.validators.contains_key(k)
                && state.peers[peer].validator_key != Some(k),
        forall|k: SessionKey| #[trigger]
            left.validators.contains_key(k) ==> left.validators[k] == state.validators[k],
        forall|id: RequestId| #[trigger]
            left.in_flight.contains_key(id) <==> state.in_flight.contains_key(id)
                && state.in_flight[id].peer != peer,
        forall|id: RequestId| #[trigger]
            left.in_flight.contains_key(id) ==> left.in_flight[id] == state.in_flight[id],
        left.pending.len() == state.pending.len() + order.len(),
        forall|i: int|
            #![trigger left.pending[i]]
            0 <= i < state.pending.len() ==> left.pending[i] == state.pending[i],
        forall|i: int|
            #![trigger order[i]]
            0 <= i < order.len() ==> left.pending[state.pending.len() + i]
                == state.in_flight[order[i]].request,
        left.live_consensus == state.live_consensus,
        left.collating_for == state.collating_for,
        left.next_req_id == state.next_req_id,
    ensures
        ({
            let step = state.disconnect(known, peer, order);
            let info = state.peers[peer];
            let dispatched = left.dispatch(known);
            let c: int = if info.collating_for is Some { 1 } else { 0 };
            let v: int = if info.validator_key is Some { 1 } else { 0 };
            &&& step.state == dispatched.state
            &&& step.actions.len() == c + v + 1 + dispatched.actions.len()
            &&& info.collating_for matches Some((account, _)) ==> step.actions[0] == ActionView::<
                S,
            >::CollatorDisconnected(account)
            &&& info.validator_key matches Some(key) ==> step.actions[c] == ActionView::<
                S,
            >::ValidatorDisconnected(key)
            &&& step.actions[c + v] == ActionView::<S>::GossipPeerDisconnected(peer)
            &&& step.actions.skip(c + v + 1) == dispatched.actions
        }),
{
    let released = state.without_peer(peer, order);
    assert(released.peers =~= left.peers);
    assert forall|k: SessionKey| released.validators.contains_key(k)
        == left.validators.contains_key(k) by {}
    assert(released.validators.dom() =~= left.validators.dom());
    assert(released.validators =~= left.validators);
    assert forall|id: RequestId| released.in_flight.contains_key(id)
        == left.in_flight.contains_key(id) by {
        assert(state.flights_to(peer).contains(id) <==> state.in_flight.contains_key(id)
            && state.in_flight[id].peer == peer);
    }
    assert(released.in_flight.dom() =~= left.in_flight.dom());
    assert(released.in_flight =~= left.in_flight);
    assert(released.pending =~= left.pending) by {
        assert forall|i: int| 0 <= i < left.pending.len() implies released.pending[i]
            == left.pending[i] by {
            if i >= state.pending.len() {
                let j = i - state.pending.len();
                assert(order[j] == order[j]);
                assert(left.pending[state.pending.len() + j] == state.in_flight[order[j]].request);
            }
        }
    }
    assert(released =~= left);
    let step = state.disconnect(known, peer, order);
    let n = step.actions.len() - left.dispatch(known).actions.len();
    assert(step.actions.skip(n) =~= left.dispatch(known).actions);
}

/// A peer that is not connected cannot disconnect: nothing happens.
pub proof fn law_stranger_cannot_disconnect<S>(
    state: ProtocolView<S>,
    known: Map<H256, EntryView>,
    peer: PeerId,
    order: Seq<RequestId>,
)
    requires
        !state.peers.contains_key(peer),
    ensures
        state.disconnect(known, peer, order).state == state,
        state.disconnect(known, peer, order).actions.len() == 0,
{
}

/// A session key from a connected validator is noted as its key, in place of any before, and leads
/// to it; the key before leads nowhere. Other peers and other keys stay as they are. The local
/// collations are told if there was a key before, and then the pending requests are dealt with.
pub proof fn law_session_key_is_noted<S>(
    state: ProtocolView<S>,
    known: Map<H256, EntryView>,
    peer: PeerId,
    key: SessionKey,
    other_peer: PeerId,
    other_key: SessionKey,
)
    requires
        state.peers.contains_key(peer),
        state.peers[peer].claimed_validator,
    ensures
        ({
            let before = state.peers[peer];
            let step = state.session_key(known, peer, key);
            let after = step.state;
            let noted = ProtocolView { peers: after.peers, validators: after.validators, ..state };
            let dispatched = noted.dispatch(known);
            let f: int = if before.validator_key is Some { 1 } else { 0 };
            &&& after.peers.contains_key(peer)
            &&& after.peers[peer].validator_key == Some(key)
            &&& after.peers[peer].claimed_validator
            &&& after.peers[peer].collating_for == before.collating_for
            &&& other_peer != peer ==> after.peers.contains_key(other_peer)
                == state.peers.contains_key(other_peer) && after.peers[other_peer]
                == state.peers[other_peer]
            &&& after.validators.contains_key(key)
            &&& after.validators[key] == peer
            &&& other_key != key ==> (after.validators.contains_key(other_key) <==> (
            state.validators.contains_key(other_key) && before.validator_key != Some(other_key)))
            &&& other_key != key && after.validators.contains_key(other_key)
                ==> after.validators[other_key] == state.validators[other_key]
            &&& after.live_consensus == state.live_consensus
            &&& after.collating_for == state.collating_for
            &&& after == dispatched.state
            &&& step.actions.len() == f + dispatched.actions.len()
            &&& before.validator_key matches Some(old) ==> step.actions[0] == ActionView::<
                S,
            >::FreshKey(peer, old, key)
            &&& step.actions.skip(f) == dispatched.actions
        }),
{
    let info = state.peers[peer];
    let kept = match info.validator_key {
        Some(before) => state.validators.remove(before),
        None => state.validators,
    };
    let noted = ProtocolView {
        peers: state.peers.insert(
            peer,
            PeerInfo { validator_key: Some(key), ..info },
        ),
        validators: kept.insert(key, peer),
        ..state
    };
    let cleared = ProtocolView { pending: seq![], ..noted };
    let step = state.session_key(known, peer, key);
    law_dispatch_leaves_peers_alone(cleared, known, noted.pending);
    assert(ProtocolView {
        peers: step.state.peers,
        validators: step.state.validators,
        ..state
    } =~= noted);
    let n = step.actions.len() - noted.dispatch(known).actions.len();
    assert(step.actions.skip(n) =~= noted.dispatch(known).actions);
}

/// A session key from a stranger is ignored, and one from a peer that did not connect as a
/// validator counts against it; neither changes anything.
pub proof fn law_session_key_is_refused<S>(
    state: ProtocolView<S>,
    known: Map<H256, EntryView>,
    peer: PeerId,
    key: SessionKey,
)
    ensures
        ({
            let step = state.session_key(known, peer, key);
            &&& !state.peers.contains_key(peer) ==> step.state == state && step.actions.len() == 0
            &&& state.peers.contains_key(peer) && !state.peers[peer].claimed_validator
                ==> step.state == state && step.actions == seq![
                ActionView::<S>::DisablePeer(peer, Misbehavior::KeyWithoutAuthority),
            ]
        }),
{
}

/// Maintaining the peers lets gossip, the collator pool and the local collations forget what is
/// old, deals with the pending requests and has the collator pool maintained, in this order.
pub proof fn law_maintenance<S>(state: ProtocolView<S>, known: Map<H256, EntryView>)
    ensures
        ({
            let step = state.maintain(known);
            let dispatched = state.dispatch(known);
            let n = dispatched.actions.len();
            &&& step.state == dispatched.state
            &&& step.actions.len() == n + 4
            &&& step.actions[0] == ActionView::<S>::GossipCollectGarbage(None)
            &&& step.actions[1] == ActionView::<S>::CollatorsCollectGarbage(None)
            &&& step.actions[2] == ActionView::<S>::LocalCollectGarbage(None)
            &&& step.actions.subrange(3, 3 + n as int) == dispatched.actions
            &&& step.actions[3 + n as int] == ActionView::<S>::MaintainCollators
        }),
{
    let step = state.maintain(known);
    let dispatched = state.dispatch(known);
    assert(step.actions.subrange(3, 3 + dispatched.actions.len() as int) =~= dispatched.actions);
}

// Messages.

/// A statement is passed to gossip as it came, under its parent hash.
pub proof fn law_statement_goes_to_gossip<S>(
    state: ProtocolView<S>,
    known: Map<H256, EntryView>,
    peer: PeerId,
    raw: Seq<u8>,
    parent_hash: H256,
    statement: Seq<u8>,
)
    ensures
        ({
            let step = state.message(
                known,
                peer,
                raw,
                MessageView::Statement(parent_hash, statement),
            );
            &&& step.state == state
            &&& step.actions == seq![
                ActionView::<S>::GossipChainSpecific(peer, raw, parent_hash),
            ]
        }),
{
}

/// A request for block data is answered under its number: with the data that is here in a live
/// session, else with nothing.
pub proof fn law_request_gets_its_response<S>(
    state: ProtocolView<S>,
    known: Map<H256, EntryView>,
    peer: PeerId,
    raw: Seq<u8>,
    id: RequestId,
    candidate: H256,
)
    ensures
        ({
            let step = state.message(
                known,
                peer,
                raw,
                MessageView::RequestBlockData(id, candidate),
            );
            &&& step.state == state
            &&& state.live_consensus is Some ==> step.actions == seq![
                ActionView::<S>::SendMessage(
                    peer,
                    MessageView::BlockData(id, block_data_of(known, candidate)),
                ),
            ]
            &&& state.live_consensus is None ==> step.actions == seq![
                ActionView::<S>::SendMessage(peer, MessageView::BlockData(id, None)),
            ]
        }),
{
}

/// Block data that comes in is hashed before anything else is done with it; a response without
/// data is a failed one, and a session key is taken for what it is.
pub proof fn law_messages_lead_to_their_events<S>(
    state: ProtocolView<S>,
    known: Map<H256, EntryView>,
    peer: PeerId,
    raw: Seq<u8>,
    id: RequestId,
    data: Seq<u8>,
    key: SessionKey,
    relay_parent: H256,
    collation: Seq<u8>,
)
    ensures
        ({
            let step = state.message(known, peer, raw, MessageView::BlockData(id, Some(data)));
            &&& step.state == state
            &&& step.actions == seq![ActionView::<S>::HashBlockData(peer, id, data)]
        }),
        ({
            let step = state.message(
                known,
                peer,
                raw,
                MessageView::Collation(relay_parent, collation),
            );
            &&& step.state == state
            &&& step.actions == seq![
                ActionView::<S>::OpenCollation(peer, relay_parent, collation),
            ]
        }),
        state.message(known, peer, raw, MessageView::BlockData(id, None)) == state.block_data(
            known,
            peer,
            id,
            None,
        ),
        state.message(known, peer, raw, MessageView::SessionKey(key)) == state.session_key(
            known,
            peer,
            key,
        ),
{
}

/// The role that a validator gives to this node is passed to the local collations as it was given,
/// with the validator's key; from a peer without a key it counts against the peer, and from a
/// stranger it is ignored. It changes nothing.
pub proof fn law_role_is_passed_on<S>(
    state: ProtocolView<S>,
    known: Map<H256, EntryView>,
    peer: PeerId,
    raw: Seq<u8>,
    role: Role,
)
    ensures
        ({
            let step = state.message(known, peer, raw, MessageView::CollatorRole(role));
            &&& step.state == state
            &&& !state.peers.contains_key(peer) ==> step.actions.len() == 0
                && state.new_role(peer, role) is None
            &&& state.peers.contains_key(peer) ==> state.new_role(peer, role) is Some
                && step.actions == seq![state.new_role(peer, role)->0]
            &&& state.peers.contains_key(peer) && state.peers[peer].validator_key is None
                ==> step.actions == seq![
                ActionView::<S>::DisablePeer(peer, Misbehavior::RoleWithoutKey),
            ]
            &&& state.peers.contains_key(peer) ==> (state.peers[peer].validator_key matches Some(
                key,
            ) ==> step.actions == seq![ActionView::<S>::NoteValidatorRole(peer, key, role)])
        }),
{
}

/// Different roles from one validator are told apart.
pub proof fn law_roles_are_told_apart<S>(
    state: ProtocolView<S>,
    peer: PeerId,
    a: Role,
    b: Role,
)
    requires
        state.peers.contains_key(peer),
        state.peers[peer].validator_key is Some,
        a != b,
    ensures
        state.new_role(peer, a) != state.new_role(peer, b),
{
}

/// Bytes are dealt with as the message that they begin with; bytes that begin with none count
/// against their sender and change nothing.
pub proof fn law_bytes_are_their_message<S>(
    state: ProtocolView<S>,
    known: Map<H256, EntryView>,
    peer: PeerId,
    raw: Seq<u8>,
    read_len: Option<usize>,
    message: MessageView,
)
    ensures
        MessageView::received(raw, read_len) == Some(message) ==> state.chain_specific(
            known,
            peer,
            raw,
            read_len,
        ) == state.message(known, peer, raw, message),
        MessageView::received(raw, read_len) is None ==> {
            let step = state.chain_specific(known, peer, raw, read_len);
            &&& step.state == state
            &&& step.actions == seq![
                ActionView::<S>::DisablePeer(peer, Misbehavior::InvalidMessage),
            ]
        },
{
}

} // verus!
