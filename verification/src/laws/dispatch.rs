//! What holds of the dispatch of requests for block data.
use vstd::prelude::*;

use crate::action::ActionView;
use crate::knowledge::{block_data_of, EntryView};
use crate::message::MessageView;
use crate::model::{first_askable, FlightView, ProtocolView, RequestView, Route, Step};
use crate::primitives::{CandidateReceipt, H256, PeerId, RequestId, SessionKey};

verus! {

/// A validator is asked only if it has the data, is connected and has not been asked; and it is
/// the first in the list of which that holds.
pub proof fn law_first_askable(
    knows: Seq<SessionKey>,
    validators: Map<SessionKey, PeerId>,
    attempted: Set<SessionKey>,
)
    ensures
        match first_askable(knows, validators, attempted) {
            Some(key) => exists|i: int|
                #![trigger knows[i]]
                0 <= i < knows.len() && knows[i] == key && validators.contains_key(key)
                    && !attempted.contains(key) && forall|j: int|
                    #![trigger knows[j]]
                    0 <= j < i ==> !validators.contains_key(knows[j]) || attempted.contains(
                        knows[j],
                    ),
            None => forall|j: int|
                #![trigger knows[j]]
                0 <= j < knows.len() ==> !validators.contains_key(knows[j])
                    || attempted.contains(knows[j]),
        },
    decreases knows.len(),
{
    if knows.len() > 0 {
        if validators.contains_key(knows[0]) && !attempted.contains(knows[0]) {
            assert(knows[0] == first_askable(knows, validators, attempted)->0);
        } else {
            let rest = knows.drop_first();
            law_first_askable(rest, validators, attempted);
            match first_askable(rest, validators, attempted) {
                Some(key) => {
                    let i = choose|i: int|
                        #![trigger rest[i]]
                        0 <= i < rest.len() && rest[i] == key && forall|j: int|
                            #![trigger rest[j]]
                            0 <= j < i ==> !validators.contains_key(rest[j])
                                || attempted.contains(rest[j]);
                    assert(knows[i + 1] == key);
                    assert forall|j: int| #![trigger knows[j]] 0 <= j < i + 1 implies
                        !validators.contains_key(knows[j]) || attempted.contains(knows[j]) by {
                        if j > 0 {
                            assert(rest[j - 1] == knows[j]);
                        }
                    }
                },
                None => {
                    assert forall|j: int| #![trigger knows[j]] 0 <= j < knows.len() implies
                        !validators.contains_key(knows[j]) || attempted.contains(knows[j]) by {
                        if j > 0 {
                            assert(rest[j - 1] == knows[j]);
                        }
                    }
                },
            }
        }
    }
}

/// A validator that a request has been sent to is never asked for it again.
pub proof fn law_never_asked_twice<S>(
    state: ProtocolView<S>,
    known: Map<H256, EntryView>,
    request: RequestView<S>,
    key: SessionKey,
)
    requires
        request.attempted_peers.contains(key),
    ensures
        state.route(known, request) != Route::Ask(key),
{
    if known.contains_key(request.candidate_hash) {
        law_first_askable(
            known[request.candidate_hash].knows_block_data,
            state.validators,
            request.attempted_peers,
        );
    }
}

/// A validator that is asked is remembered with the request, next to those asked before.
pub proof fn law_asked_is_remembered<S>(
    state: ProtocolView<S>,
    known: Map<H256, EntryView>,
    request: RequestView<S>,
    key: SessionKey,
)
    requires
        state.route(known, request) == Route::Ask(key),
        state.next_req_id <= u64::MAX,
    ensures
        ({
            let after = state.dispatch_one(known, request).state;
            let id = state.next_req_id as u64;
            &&& after.awaits(state.validators[key], id)
            &&& after.in_flight[id].request.attempted_peers == request.attempted_peers.insert(key)
            &&& after.in_flight[id].request.sender == request.sender
            &&& after.in_flight[id].request.block_data_hash == request.block_data_hash
        }),
{
}

/// A dispatch changes nothing but the requests and the number of the next one.
pub proof fn law_dispatch_leaves_peers_alone<S>(
    state: ProtocolView<S>,
    known: Map<H256, EntryView>,
    requests: Seq<RequestView<S>>,
)
    ensures
        ({
            let after = state.dispatch_each(known, requests).state;
            &&& after.peers == state.peers
            &&& after.collating_for == state.collating_for
            &&& after.validators == state.validators
            &&& after.live_consensus == state.live_consensus
        }),
    decreases requests.len(),
{
    if requests.len() > 0 {
        law_dispatch_leaves_peers_alone(state, known, requests.drop_last());
    }
}

/// What a dispatch leaves alone, and what it does with the numbers: they are given out one after
/// the other, and no request in flight is touched.
pub proof fn law_dispatch_frame<S>(
    state: ProtocolView<S>,
    known: Map<H256, EntryView>,
    requests: Seq<RequestView<S>>,
)
    requires
        state.numbers_given(),
        state.next_req_id + requests.len() <= u64::MAX,
    ensures
        ({
            let after = state.dispatch_each(known, requests).state;
            &&& after.peers == state.peers
            &&& after.collating_for == state.collating_for
            &&& after.validators == state.validators
            &&& after.live_consensus == state.live_consensus
            &&& state.next_req_id <= after.next_req_id <= state.next_req_id + requests.len()
            &&& after.numbers_given()
            &&& forall|id: RequestId| #[trigger]
                state.in_flight.contains_key(id) ==> after.in_flight.contains_key(id)
                    && after.in_flight[id] == state.in_flight[id]
            &&& forall|id: RequestId|
                #![trigger after.in_flight.contains_key(id)]
                state.next_req_id <= id < after.next_req_id ==> after.in_flight.contains_key(id)
            &&& forall|id: RequestId|
                #![trigger after.in_flight.contains_key(id)]
                after.in_flight.contains_key(id) && !state.in_flight.contains_key(id) ==> id
                    >= state.next_req_id && state.validators.contains_value(
                    after.in_flight[id].peer,
                )
        }),
    decreases requests.len(),
{
    if requests.len() > 0 {
        law_dispatch_frame(state, known, requests.drop_last());
        let middle = state.dispatch_each(known, requests.drop_last()).state;
        let last = requests.last();
        if let Route::Ask(key) = middle.route(known, last) {
            law_first_askable(
                known[last.candidate_hash].knows_block_data,
                middle.validators,
                last.attempted_peers,
            );
            assert(state.validators.contains_key(key));
        }
    }
}

/// The requests that stay pending are those that nobody can be asked for, in their order.
pub proof fn law_dispatch_keeps_waiting<S>(
    state: ProtocolView<S>,
    known: Map<H256, EntryView>,
    requests: Seq<RequestView<S>>,
)
    ensures
        state.dispatch_each(known, requests).state.pending == state.pending + requests.filter(
            |request: RequestView<S>| state.route(known, request) == Route::Wait,
        ),
    decreases requests.len(),
{
    let waits = |request: RequestView<S>| state.route(known, request) == Route::Wait;
    reveal(Seq::filter);
    if requests.len() > 0 {
        let most = requests.drop_last();
        let middle = state.dispatch_each(known, most).state;
        law_dispatch_keeps_waiting(state, known, most);
        law_dispatch_leaves_peers_alone(state, known, most);
        assert(middle.route(known, requests.last()) == state.route(known, requests.last()));
        assert(state.dispatch_each(known, requests).state.pending =~= state.pending
            + requests.filter(waits));
    } else {
        assert(state.pending + requests.filter(waits) =~= state.pending);
    }
}

/// Requests that nobody can be asked for stay pending, and nothing is done.
proof fn lemma_waiting_stays<S>(
    state: ProtocolView<S>,
    known: Map<H256, EntryView>,
    requests: Seq<RequestView<S>>,
)
    requires
        forall|i: int|
            0 <= i < requests.len() ==> state.route(known, #[trigger] requests[i]) == Route::Wait,
    ensures
        state.dispatch_each(known, requests) == (ProtocolView {
            pending: state.pending + requests,
            ..state
        }).idle(),
    decreases requests.len(),
{
    if requests.len() == 0 {
        assert(state.pending + requests =~= state.pending);
    } else {
        let most = requests.drop_last();
        lemma_waiting_stays(state, known, most);
        let middle = state.dispatch_each(known, most);
        let last = requests.last();
        assert(requests[requests.len() - 1] == last);
        assert(middle.state.route(known, last) == state.route(known, last));
        assert(middle.state.pending.push(last) =~= state.pending + requests);
        assert(state.dispatch_each(known, requests).actions =~= seq![]);
    }
}

/// A dispatch settles things: a second one right after it does nothing.
pub proof fn law_dispatch_settles<S>(state: ProtocolView<S>, known: Map<H256, EntryView>)
    ensures
        ({
            let after = state.dispatch(known).state;
            after.dispatch(known) == after.idle()
        }),
{
    let cleared = ProtocolView { pending: seq![], ..state };
    let after = state.dispatch(known).state;
    let waits = |request: RequestView<S>| cleared.route(known, request) == Route::Wait;
    law_dispatch_keeps_waiting(cleared, known, state.pending);
    law_dispatch_leaves_peers_alone(cleared, known, state.pending);
    assert(after.pending =~= state.pending.filter(waits));
    broadcast use vstd::seq_lib::group_filter_ensures;
    let emptied = ProtocolView { pending: seq![], ..after };
    assert forall|i: int| 0 <= i < after.pending.len() implies emptied.route(
        known,
        #[trigger] after.pending[i],
    ) == Route::Wait by {
        assert(waits(after.pending[i]));
    }
    lemma_waiting_stays(emptied, known, after.pending);
    assert(emptied.pending + after.pending =~= after.pending);
}

/// The request belongs to the session that is live.
pub open spec fn is_live<S>(state: ProtocolView<S>, parent: H256) -> bool {
    state.live_consensus is Some && state.live_consensus->0.parent_hash == parent
}

/// The step hands block data to the sender.
pub open spec fn answers<S>(step: Step<S>, sender: S) -> bool {
    exists|data: Seq<u8>| #[trigger]
        step.actions.contains(ActionView::AnswerBlockData(sender, data))
}

/// A request with this sender and of this session is among the requests.
pub open spec fn asks_for<S>(requests: Seq<RequestView<S>>, sender: S, parent: H256) -> bool {
    exists|i: int|
        #![trigger requests[i]]
        0 <= i < requests.len() && requests[i].sender == sender && requests[i].consensus_parent
            == parent
}

/// A request with this sender and of this session is pending or in flight.
pub open spec fn waits<S>(state: ProtocolView<S>, sender: S, parent: H256) -> bool {
    asks_for(state.pending, sender, parent) || exists|id: RequestId| #[trigger]
        state.in_flight.contains_key(id) && state.in_flight[id].request.sender == sender
            && state.in_flight[id].request.consensus_parent == parent
}

/// Whoever waits before some requests are dispatched, or has one of the requests, waits after it
/// or is answered by it, unless its session is over.
proof fn lemma_each_waiter<S>(
    state: ProtocolView<S>,
    known: Map<H256, EntryView>,
    requests: Seq<RequestView<S>>,
    sender: S,
    parent: H256,
)
    requires
        state.numbers_given(),
        state.next_req_id + requests.len() <= u64::MAX,
        waits(state, sender, parent) || asks_for(requests, sender, parent),
        is_live(state, parent),
    ensures
        waits(state.dispatch_each(known, requests).state, sender, parent) || answers(
            state.dispatch_each(known, requests),
            sender,
        ),
    decreases requests.len(),
{
    let step = state.dispatch_each(known, requests);
    if requests.len() > 0 {
        let most = requests.drop_last();
        let last = requests.last();
        let before = state.dispatch_each(known, most);
        let one = before.state.dispatch_one(known, last);
        law_dispatch_frame(state, known, most);
        assert(step.actions == before.actions + one.actions);
        if last.sender == sender && last.consensus_parent == parent {
            match before.state.route(known, last) {
                Route::Drop => {
                    assert(false);
                },
                Route::Answer(data) => {
                    assert(step.actions[before.actions.len() as int]
                        == ActionView::AnswerBlockData(sender, data));
                    assert(step.actions.contains(ActionView::AnswerBlockData(sender, data)));
                },
                Route::Ask(key) => {
                    assert(step.state.in_flight.contains_key(before.state.next_req_id as u64));
                },
                Route::Wait => {
                    assert(step.state.pending[before.state.pending.len() as int] == last);
                },
            }
        } else {
            assert(asks_for(requests, sender, parent) ==> asks_for(most, sender, parent)) by {
                if asks_for(requests, sender, parent) {
                    let i = choose|i: int|
                        #![trigger requests[i]]
                        0 <= i < requests.len() && requests[i].sender == sender
                            && requests[i].consensus_parent == parent;
                    assert(most[i] == requests[i]);
                }
            }
            lemma_each_waiter(state, known, most, sender, parent);
            if answers(before, sender) {
                let data = choose|data: Seq<u8>| #[trigger]
                    before.actions.contains(ActionView::AnswerBlockData(sender, data));
                let i = choose|i: int|
                    0 <= i < before.actions.len() && before.actions[i]
                        == ActionView::AnswerBlockData(sender, data);
                assert(step.actions[i] == ActionView::AnswerBlockData(sender, data));
                assert(step.actions.contains(ActionView::AnswerBlockData(sender, data)));
            } else if asks_for(before.state.pending, sender, parent) {
                let i = choose|i: int|
                    #![trigger before.state.pending[i]]
                    0 <= i < before.state.pending.len() && before.state.pending[i].sender
                        == sender && before.state.pending[i].consensus_parent == parent;
                assert(step.state.pending[i] == before.state.pending[i]);
            } else {
                let id = choose|id: RequestId| #[trigger]
                    before.state.in_flight.contains_key(id)
                        && before.state.in_flight[id].request.sender == sender
                        && before.state.in_flight[id].request.consensus_parent == parent;
                assert(step.state.in_flight.contains_key(id));
            }
        }
    }
}

/// No waiter is forgotten: while its session is live, whoever waits for block data before a
/// dispatch is answered by it or waits after it.
pub proof fn law_dispatch_forgets_nobody<S>(
    state: ProtocolView<S>,
    known: Map<H256, EntryView>,
    sender: S,
    parent: H256,
)
    requires
        state.numbers_given(),
        state.numbers_for(0),
        is_live(state, parent),
        waits(state, sender, parent),
    ensures
        waits(state.dispatch(known).state, sender, parent) || answers(
            state.dispatch(known),
            sender,
        ),
{
    let cleared = ProtocolView { pending: seq![], ..state };
    assert(cleared.numbers_given());
    if !asks_for(state.pending, sender, parent) {
        let id = choose|id: RequestId| #[trigger]
            state.in_flight.contains_key(id) && state.in_flight[id].request.sender == sender
                && state.in_flight[id].request.consensus_parent == parent;
        assert(cleared.in_flight.contains_key(id));
    }
    lemma_each_waiter(cleared, known, state.pending, sender, parent);
}

/// Putting actions before those of a step takes no answer away.
pub proof fn lemma_after_answers<S>(step: Step<S>, first: Seq<ActionView<S>>, sender: S)
    requires
        answers(step, sender),
    ensures
        answers(step.after(first), sender),
{
    let data = choose|data: Seq<u8>| #[trigger]
        step.actions.contains(ActionView::AnswerBlockData(sender, data));
    let answer = ActionView::AnswerBlockData(sender, data);
    let i = choose|i: int| 0 <= i < step.actions.len() && step.actions[i] == answer;
    assert(step.after(first).actions[first.len() + i] == answer);
    assert(step.after(first).actions.contains(answer));
}

/// Who asks for block data in the live session waits for it or has it at once.
pub proof fn law_fetch_is_taken_up<S>(
    state: ProtocolView<S>,
    known: Map<H256, EntryView>,
    candidate: CandidateReceipt,
    relay_parent: H256,
    sender: S,
)
    requires
        state.numbers_given(),
        state.numbers_for(1),
        is_live(state, relay_parent),
    ensures
        ({
            let step = state.fetch(known, candidate, relay_parent, sender);
            waits(step.state, sender, relay_parent) || answers(step, sender)
        }),
{
    let request = RequestView {
        attempted_peers: Set::empty(),
        consensus_parent: relay_parent,
        candidate_hash: candidate.hash,
        block_data_hash: candidate.block_data_hash,
        sender,
    };
    let taken_up = ProtocolView { pending: state.pending.push(request), ..state };
    assert(taken_up.numbers_given());
    assert(taken_up.pending[state.pending.len() as int] == request);
    law_dispatch_forgets_nobody(taken_up, known, sender, relay_parent);
}

/// Block data that is here is handed over as soon as it is asked for, and nobody else is asked.
pub proof fn law_fetch_of_known_data<S>(
    state: ProtocolView<S>,
    known: Map<H256, EntryView>,
    candidate: CandidateReceipt,
    relay_parent: H256,
    sender: S,
)
    requires
        is_live(state, relay_parent),
        block_data_of(known, candidate.hash) is Some,
    ensures
        ({
            let step = state.fetch(known, candidate, relay_parent, sender);
            let others = state.dispatch(known);
            step.state == others.state && step.actions == others.actions.push(
                ActionView::AnswerBlockData(sender, block_data_of(known, candidate.hash)->0),
            )
        }),
{
    let request = RequestView {
        attempted_peers: Set::empty(),
        consensus_parent: relay_parent,
        candidate_hash: candidate.hash,
        block_data_hash: candidate.block_data_hash,
        sender,
    };
    let all = state.pending.push(request);
    let cleared = ProtocolView { pending: seq![], ..state };
    assert(all.drop_last() =~= state.pending);
    law_dispatch_leaves_peers_alone(cleared, known, state.pending);
    let data = block_data_of(known, candidate.hash)->0;
    let others = cleared.dispatch_each(known, state.pending);
    assert(others.actions + seq![ActionView::<S>::AnswerBlockData(sender, data)]
        =~= others.actions.push(ActionView::AnswerBlockData(sender, data)));
}

/// A dispatch only answers and asks: an answer is the block data that is known of a candidate
/// that was asked for in the live session, and a question goes to a validator.
pub proof fn law_dispatch_actions<S>(
    state: ProtocolView<S>,
    known: Map<H256, EntryView>,
    requests: Seq<RequestView<S>>,
    action: ActionView<S>,
)
    requires
        state.dispatch_each(known, requests).actions.contains(action),
    ensures
        match action {
            ActionView::AnswerBlockData(sender, data) => exists|i: int|
                #![trigger requests[i]]
                0 <= i < requests.len() && requests[i].sender == sender && is_live(
                    state,
                    requests[i].consensus_parent,
                ) && block_data_of(known, requests[i].candidate_hash) == Some(data),
            ActionView::SendMessage(
                peer,
                MessageView::RequestBlockData(id, candidate),
            ) => state.validators.contains_value(peer) && block_data_of(known, candidate) is None
                && exists|i: int|
                #![trigger requests[i]]
                0 <= i < requests.len() && requests[i].candidate_hash == candidate && is_live(
                    state,
                    requests[i].consensus_parent,
                ),
            _ => false,
        },
    decreases requests.len(),
{
    if requests.len() > 0 {
        let most = requests.drop_last();
        let last = requests.last();
        let before = state.dispatch_each(known, most);
        let one = before.state.dispatch_one(known, last);
        law_dispatch_leaves_peers_alone(state, known, most);
        let all = before.actions + one.actions;
        let k = choose|k: int| 0 <= k < all.len() && all[k] == action;
        if k < before.actions.len() {
            assert(before.actions[k] == action);
            law_dispatch_actions(state, known, most, action);
            assert forall|i: int| #![trigger most[i]] 0 <= i < most.len() implies most[i]
                == requests[i] by {}
            match action {
                ActionView::AnswerBlockData(sender, data) => {
                    let i = choose|i: int|
                        #![trigger most[i]]
                        0 <= i < most.len() && most[i].sender == sender && is_live(
                            state,
                            most[i].consensus_parent,
                        ) && block_data_of(known, most[i].candidate_hash) == Some(data);
                    assert(requests[i] == most[i]);
                },
                ActionView::SendMessage(peer, MessageView::RequestBlockData(id, candidate)) => {
                    let i = choose|i: int|
                        #![trigger most[i]]
                        0 <= i < most.len() && most[i].candidate_hash == candidate && is_live(
                            state,
                            most[i].consensus_parent,
                        );
                    assert(requests[i] == most[i]);
                },
                _ => {},
            }
        } else {
            assert(one.actions[k - before.actions.len()] == action);
            assert(requests[requests.len() - 1] == last);
            if let Route::Ask(key) = before.state.route(known, last) {
                law_first_askable(
                    known[last.candidate_hash].knows_block_data,
                    state.validators,
                    last.attempted_peers,
                );
                assert(state.validators.contains_key(key));
            }
        }
    }
}

/// What stays pending belongs to the live session; without one nothing stays.
pub proof fn law_pending_is_live<S>(state: ProtocolView<S>, known: Map<H256, EntryView>)
    ensures
        ({
            let after = state.dispatch(known).state;
            &&& after.live_consensus == state.live_consensus
            &&& forall|i: int|
                #![trigger after.pending[i]]
                0 <= i < after.pending.len() ==> is_live(after, after.pending[i].consensus_parent)
        }),
{
    broadcast use vstd::seq_lib::group_filter_ensures;

    let cleared = ProtocolView { pending: seq![], ..state };
    let after = state.dispatch(known).state;
    let waits = |request: RequestView<S>| cleared.route(known, request) == Route::Wait;
    law_dispatch_keeps_waiting(cleared, known, state.pending);
    law_dispatch_leaves_peers_alone(cleared, known, state.pending);
    assert(after.pending =~= state.pending.filter(waits));
    assert forall|i: int| #![trigger after.pending[i]] 0 <= i < after.pending.len() implies is_live(
        after,
        after.pending[i].consensus_parent,
    ) by {
        assert(waits(after.pending[i]));
    }
}

/// Nothing that could be served now stays pending: what stays belongs to the live session, its
/// block data is not here, and each connected validator that has the data has been asked.
pub proof fn law_nothing_servable_is_pending<S>(
    state: ProtocolView<S>,
    known: Map<H256, EntryView>,
    i: int,
)
    requires
        0 <= i < state.dispatch(known).state.pending.len(),
    ensures
        ({
            let after = state.dispatch(known).state;
            let request = after.pending[i];
            &&& is_live(after, request.consensus_parent)
            &&& known.contains_key(request.candidate_hash) ==> {
                let entry = known[request.candidate_hash];
                &&& entry.block_data is None
                &&& forall|j: int|
                    #![trigger entry.knows_block_data[j]]
                    0 <= j < entry.knows_block_data.len() && after.validators.contains_key(
                        entry.knows_block_data[j],
                    ) ==> request.attempted_peers.contains(entry.knows_block_data[j])
            }
        }),
{
    broadcast use vstd::seq_lib::group_filter_ensures;

    let cleared = ProtocolView { pending: seq![], ..state };
    let after = state.dispatch(known).state;
    let waits = |request: RequestView<S>| cleared.route(known, request) == Route::Wait;
    law_dispatch_keeps_waiting(cleared, known, state.pending);
    law_dispatch_leaves_peers_alone(cleared, known, state.pending);
    assert(after.pending =~= state.pending.filter(waits));
    let request = after.pending[i];
    assert(waits(request));
    if known.contains_key(request.candidate_hash) {
        law_first_askable(
            known[request.candidate_hash].knows_block_data,
            state.validators,
            request.attempted_peers,
        );
    }
}

/// A request of the live session goes to a connected validator that has the block data and has
/// not been asked, which is noted with the request; nothing else of the request changes.
pub open spec fn asked_of<S>(
    state: ProtocolView<S>,
    known: Map<H256, EntryView>,
    request: RequestView<S>,
    key: SessionKey,
    flight: FlightView<S>,
) -> bool {
    &&& is_live(state, request.consensus_parent)
    &&& known.contains_key(request.candidate_hash)
    &&& known[request.candidate_hash].knows_block_data.contains(key)
    &&& state.validators.contains_key(key)
    &&& state.validators[key] == flight.peer
    &&& !request.attempted_peers.contains(key)
    &&& flight.request == RequestView {
        attempted_peers: request.attempted_peers.insert(key),
        ..request
    }
}

/// Whatever a dispatch puts in flight is one of the requests, asked of a validator that it has not
/// been asked of.
pub proof fn law_sent_out_is_asked_anew<S>(
    state: ProtocolView<S>,
    known: Map<H256, EntryView>,
    requests: Seq<RequestView<S>>,
    id: RequestId,
)
    requires
        state.numbers_given(),
        state.next_req_id + requests.len() <= u64::MAX,
        !state.in_flight.contains_key(id),
        state.dispatch_each(known, requests).state.in_flight.contains_key(id),
    ensures
        exists|i: int, key: SessionKey|
            #![trigger asked_of(
                state,
                known,
                requests[i],
                key,
                state.dispatch_each(known, requests).state.in_flight[id],
            )]
            0 <= i < requests.len() && asked_of(
                state,
                known,
                requests[i],
                key,
                state.dispatch_each(known, requests).state.in_flight[id],
            ),
    decreases requests.len(),
{
    if requests.len() > 0 {
        let most = requests.drop_last();
        let last = requests.last();
        let before = state.dispatch_each(known, most).state;
        let after = state.dispatch_each(known, requests).state;
        law_dispatch_frame(state, known, most);
        if before.in_flight.contains_key(id) {
            law_sent_out_is_asked_anew(state, known, most, id);
            let (i, key) = choose|i: int, key: SessionKey|
                #![trigger asked_of(state, known, most[i], key, before.in_flight[id])]
                0 <= i < most.len() && asked_of(
                    state,
                    known,
                    most[i],
                    key,
                    before.in_flight[id],
                );
            assert(most[i] == requests[i]);
            assert(before.in_flight[id] == after.in_flight[id]);
            assert(asked_of(state, known, requests[i], key, after.in_flight[id]));
        } else if let Route::Ask(key) = before.route(known, last) {
            law_first_askable(
                known[last.candidate_hash].knows_block_data,
                state.validators,
                last.attempted_peers,
            );
            assert(requests[requests.len() - 1] == last);
            assert(asked_of(
                state,
                known,
                requests[requests.len() - 1],
                key,
                after.in_flight[id],
            ));
        }
    }
}

/// No validator is asked twice for one request, however often and in whatever states it is sent
/// out: `requests` is what becomes of it from one time to the next.
pub proof fn law_no_key_is_asked_twice<S>(
    states: Seq<ProtocolView<S>>,
    known: Seq<Map<H256, EntryView>>,
    requests: Seq<RequestView<S>>,
    keys: Seq<SessionKey>,
    peers: Seq<PeerId>,
)
    requires
        requests.len() == keys.len() + 1,
        forall|i: int|
            #![trigger keys[i]]
            0 <= i < keys.len() ==> asked_of(
                states[i],
                known[i],
                requests[i],
                keys[i],
                (FlightView { peer: peers[i], request: requests[i + 1] }),
            ),
    ensures
        keys.no_duplicates(),
        forall|i: int|
            #![trigger keys[i]]
            0 <= i < keys.len() ==> requests.last().attempted_peers.contains(keys[i]),
    decreases keys.len(),
{
    if keys.len() > 0 {
        let most = keys.drop_last();
        let earlier = requests.drop_last();
        let n = keys.len() - 1;
        assert forall|i: int| #![trigger most[i]] 0 <= i < most.len() implies asked_of(
            states[i],
            known[i],
            earlier[i],
            most[i],
            (FlightView { peer: peers[i], request: earlier[i + 1] }),
        ) by {
            assert(most[i] == keys[i]);
        }
        law_no_key_is_asked_twice(states, known, earlier, most, peers);
        assert(keys[n] == keys.last());
        assert(earlier.last() == requests[n]);
        assert forall|i: int| #![trigger keys[i]] 0 <= i < keys.len() implies
            requests.last().attempted_peers.contains(keys[i]) by {
            if i < n {
                assert(most[i] == keys[i]);
            }
        }
        assert forall|i: int, j: int| 0 <= i < keys.len() && 0 <= j < keys.len() && i != j
            implies keys[i] != keys[j] by {
            if i < n {
                assert(most[i] == keys[i]);
            }
            if j < n {
                assert(most[j] == keys[j]);
            }
        }
    }
}

} // verus!
