//! What holds of collators and collations.
use vstd::prelude::*;

use crate::action::{ActionView, Misbehavior};
use crate::knowledge::EntryView;
use crate::laws::dispatch::law_dispatch_leaves_peers_alone;
use crate::message::MessageView;
use crate::model::{PeerInfo, ProtocolView};
use crate::primitives::{AccountId, CandidateReceipt, CollatorAction, H256, ParaId, PeerId, Role,
    Roles, SessionKey};

verus! {

/// The peer that is found under an account is the one that collates under it.
pub proof fn law_collator_is_found<S>(state: ProtocolView<S>, account: AccountId, peer: PeerId)
    requires
        state.one_peer_per_collator(),
    ensures
        state.collator_peer(account) == Some(peer) <==> state.collates_as(peer, account),
{
}

/// A peer that connects leaves no two peers under one account, whatever it claims and whether or
/// not it was connected.
pub proof fn law_connect_keeps_collators_apart<S>(
    state: ProtocolView<S>,
    known: Map<H256, EntryView>,
    peer: PeerId,
    claim: Option<(AccountId, ParaId)>,
    roles: Roles,
)
    requires
        state.one_peer_per_collator(),
    ensures
        state.connect(known, peer, claim, roles).state.one_peer_per_collator(),
{
    if !state.claim_taken(claim) {
        let info = PeerInfo {
            collating_for: claim,
            validator_key: None,
            claimed_validator: roles.authority,
        };
        let cleared = ProtocolView {
            peers: state.peers.insert(peer, info),
            pending: seq![],
            ..state
        };
        let after = state.connect(known, peer, claim, roles).state;
        law_dispatch_leaves_peers_alone(cleared, known, state.pending);
        assert forall|p: PeerId, q: PeerId, a: AccountId| #[trigger]
            after.collates_as(p, a) && #[trigger] after.collates_as(q, a) implies p == q by {
            if p != peer {
                assert(state.collates_as(p, a));
            }
            if q != peer {
                assert(state.collates_as(q, a));
            }
        }
    }
}

/// Of two peers that claim one account the second is sent away, and nothing changes.
pub proof fn law_claims_are_exclusive<S>(
    state: ProtocolView<S>,
    known: Map<H256, EntryView>,
    holder: PeerId,
    peer: PeerId,
    account: AccountId,
    para: ParaId,
    roles: Roles,
)
    requires
        state.collates_as(holder, account),
    ensures
        state.connect(known, peer, Some((account, para)), roles) == state.just(
            ActionView::DisconnectPeer(peer),
        ),
{
}

/// A collation gets to the collator pool only from the peer that collates under the account that
/// signed it, for the parachain that the peer announced.
pub proof fn law_collation_is_from_its_collator<S>(
    state: ProtocolView<S>,
    from: PeerId,
    relay_parent: H256,
    receipt: CandidateReceipt,
    collation: Seq<u8>,
)
    requires
        state.one_peer_per_collator(),
    ensures
        state.collation(from, relay_parent, receipt, collation) is CollationReceived <==> {
            &&& state.collator_peer(receipt.collator) == Some(from)
            &&& state.peers[from].collating_for == Some((receipt.collator, receipt.parachain_index))
            &&& receipt.signature_valid
        },
        state.collation(from, relay_parent, receipt, collation) is CollationReceived
            ==> state.collation(from, relay_parent, receipt, collation)
            == ActionView::<S>::CollationReceived(receipt.collator, relay_parent, collation),
{
    law_collator_is_found(state, receipt.collator, from);
}

/// A local collation gets to exactly the connected validators that are due it.
pub proof fn law_local_collation_reaches_its_validators<S>(
    state: ProtocolView<S>,
    relay_parent: H256,
    due: Seq<(SessionKey, Seq<u8>)>,
    action: ActionView<S>,
)
    ensures
        state.local_collation(relay_parent, due).contains(action) <==> exists|i: int|
            #![trigger due[i]]
            0 <= i < due.len() && state.validators.contains_key(due[i].0) && action
                == ActionView::<S>::SendMessage(
                state.validators[due[i].0],
                MessageView::Collation(relay_parent, due[i].1),
            ),
    decreases due.len(),
{
    if due.len() > 0 {
        let most = due.drop_last();
        let before = state.local_collation(relay_parent, most);
        let after = state.local_collation(relay_parent, due);
        let last = due.len() - 1;
        law_local_collation_reaches_its_validators(state, relay_parent, most, action);
        assert forall|i: int| #![trigger due[i]] 0 <= i < last implies due[i] == most[i] by {}
        if after.contains(action) {
            let k = choose|k: int| 0 <= k < after.len() && after[k] == action;
            if k < before.len() {
                assert(before[k] == action);
                let i = choose|i: int|
                    #![trigger most[i]]
                    0 <= i < most.len() && state.validators.contains_key(most[i].0) && action
                        == ActionView::<S>::SendMessage(
                        state.validators[most[i].0],
                        MessageView::Collation(relay_parent, most[i].1),
                    );
                assert(due[i] == most[i]);
            } else {
                assert(due[last] == due.last());
            }
        }
        assert forall|i: int|
            #![trigger due[i]]
            0 <= i < due.len() && state.validators.contains_key(due[i].0) && action
                == ActionView::<S>::SendMessage(
                state.validators[due[i].0],
                MessageView::Collation(relay_parent, due[i].1),
            ) implies after.contains(action) by {
            if i < last {
                assert(most[i] == due[i]);
                let k = choose|k: int| 0 <= k < before.len() && before[k] == action;
                assert(after[k] == action);
            } else {
                assert(after[before.len() as int] == action);
            }
        }
    }
}

/// What the collator pool wants done to a collator is done to the peer that collates under its
/// account: a new role is told to that peer as it is, and a collator to be disconnected is disabled.
/// For an account that nobody collates under nothing is done.
pub proof fn law_pool_reaches_its_collator<S>(
    state: ProtocolView<S>,
    account: AccountId,
    peer: PeerId,
    role: Role,
)
    requires
        state.one_peer_per_collator(),
    ensures
        state.collates_as(peer, account) ==> {
            &&& state.collator_action(CollatorAction::NewRole(account, role)) == Some(
                ActionView::<S>::SendMessage(peer, MessageView::CollatorRole(role)),
            )
            &&& state.collator_action(CollatorAction::Disconnect(account)) == Some(
                ActionView::<S>::DisablePeer(peer, Misbehavior::BadCollator),
            )
        },
        (forall|p: PeerId| !#[trigger] state.collates_as(p, account)) ==> {
            &&& state.collator_peer(account) is None
            &&& state.collator_action(CollatorAction::NewRole(account, role)) is None
            &&& state.collator_action(CollatorAction::Disconnect(account)) is None
        },
{
}

/// What the collator pool wants is done one by one, in the order in which it wants it.
pub proof fn law_pool_is_served_in_turn<S>(
    state: ProtocolView<S>,
    a: Seq<CollatorAction>,
    b: Seq<CollatorAction>,
    one: CollatorAction,
)
    ensures
        state.collator_actions(a + b) == state.collator_actions(a) + state.collator_actions(b),
        state.collator_actions(seq![]).len() == 0,
        state.collator_action(one) matches Some(action) ==> state.collator_actions(seq![one])
            == seq![action],
        state.collator_action(one) is None ==> state.collator_actions(seq![one]).len() == 0,
    decreases b.len(),
{
    let single = seq![one];
    assert(single.drop_last() =~= seq![]);
    assert(single.last() == one);
    assert(state.collator_actions(seq![]) =~= seq![]);
    if b.len() == 0 {
        assert(a + b =~= a);
        assert(state.collator_actions(a) + state.collator_actions(b) =~= state.collator_actions(a));
    } else {
        law_pool_is_served_in_turn(state, a, b.drop_last(), one);
        assert((a + b).drop_last() =~= a + b.drop_last());
        assert((a + b).last() == b.last());
        assert(state.collator_actions(a + b) =~= state.collator_actions(a)
            + state.collator_actions(b));
    }
    if let Some(action) = state.collator_action(one) {
        assert(state.collator_actions(single) =~= seq![action]);
    }
}

/// What becomes of a collation: from a stranger it has the stranger disconnected; from a peer that
/// does not collate, and from one whose parachain or account the receipt does not give or whose
/// signature it does not carry, it counts against the peer; else the collator pool gets it, under
/// the account and the relay parent.
pub proof fn law_collation_is_judged<S>(
    state: ProtocolView<S>,
    from: PeerId,
    relay_parent: H256,
    receipt: CandidateReceipt,
    collation: Seq<u8>,
)
    ensures
        ({
            let action = state.collation(from, relay_parent, receipt, collation);
            let connected = state.peers.contains_key(from);
            let claim = state.peers[from].collating_for;
            let right = claim == Some((receipt.collator, receipt.parachain_index))
                && receipt.signature_valid;
            &&& !connected ==> action == ActionView::<S>::DisconnectPeer(from)
            &&& connected && claim is None ==> action == ActionView::<S>::DisablePeer(
                from,
                Misbehavior::CollationWithoutIntent,
            )
            &&& connected && claim is Some && !right ==> action == ActionView::<S>::DisablePeer(
                from,
                Misbehavior::MalformedCollation,
            )
            &&& connected && right ==> action == ActionView::<S>::CollationReceived(
                receipt.collator,
                relay_parent,
                collation,
            )
        }),
{
}

/// A local collation goes to the validators that are due it one by one, in their order, each
/// getting its own copy; those that are not connected are passed over.
pub proof fn law_local_collation_goes_out_in_turn<S>(
    state: ProtocolView<S>,
    relay_parent: H256,
    a: Seq<(SessionKey, Seq<u8>)>,
    b: Seq<(SessionKey, Seq<u8>)>,
    key: SessionKey,
    copy: Seq<u8>,
)
    ensures
        state.local_collation(relay_parent, a + b) == state.local_collation(relay_parent, a)
            + state.local_collation(relay_parent, b),
        state.local_collation(relay_parent, seq![]).len() == 0,
        state.validators.contains_key(key) ==> state.local_collation(
            relay_parent,
            seq![(key, copy)],
        ) == seq![
            ActionView::<S>::SendMessage(
                state.validators[key],
                MessageView::Collation(relay_parent, copy),
            ),
        ],
        !state.validators.contains_key(key) ==> state.local_collation(
            relay_parent,
            seq![(key, copy)],
        ).len() == 0,
    decreases b.len(),
{
    let single = seq![(key, copy)];
    assert(single.drop_last() =~= seq![]);
    assert(single.last() == (key, copy));
    assert(state.local_collation(relay_parent, seq![]) =~= seq![]);
    if b.len() == 0 {
        assert(a + b =~= a);
        assert(state.local_collation(relay_parent, a) + state.local_collation(relay_parent, b)
            =~= state.local_collation(relay_parent, a));
    } else {
        law_local_collation_goes_out_in_turn(state, relay_parent, a, b.drop_last(), key, copy);
        assert((a + b).drop_last() =~= a + b.drop_last());
        assert((a + b).last() == b.last());
        assert(state.local_collation(relay_parent, a + b) =~= state.local_collation(
            relay_parent,
            a,
        ) + state.local_collation(relay_parent, b));
    }
    if state.validators.contains_key(key) {
        assert(state.local_collation(relay_parent, single) =~= seq![
            ActionView::<S>::SendMessage(
                state.validators[key],
                MessageView::Collation(relay_parent, copy),
            ),
        ]);
    }
}

} // verus!
