//! What the values that go in and out say.
use std::collections::HashSet;
use vstd::prelude::*;

use crate::action::{said, Action, ActionView, Misbehavior};
use crate::knowledge::KnowledgeEntry;
use crate::message::{optional_bytes, Message, MessageView};
use crate::model::{collations_to, ProtocolView, Step};
use crate::primitives::{AccountId, BftMessage, BlockData, Collation, Extrinsic, H256, ParaId, PeerId,
    RequestId, Role, Roles, SessionKey, SignedStatement};
use crate::protocol::{claim_of, hashed_bytes, keyed_bytes, listed, taken, viewed};
use crate::status::Status;

verus! {

/// Values that carry bytes say these bytes.
pub proof fn law_carried_bytes(
    data: BlockData,
    extrinsic: Extrinsic,
    statement: SignedStatement,
    collation: Collation,
    bft: BftMessage,
)
    ensures
        data@ == data.bytes@,
        extrinsic@ == extrinsic.bytes@,
        statement@ == statement.encoded@,
        collation@ == collation.encoded@,
        bft@ == bft.encoded@,
        optional_bytes(Some(data)) == Some(data.bytes@),
        optional_bytes(None) is None,
{
}

/// An entry says what it holds.
pub proof fn law_entry_says(entry: KnowledgeEntry)
    ensures
        entry@.knows_block_data == entry.knows_block_data@,
        entry@.knows_extrinsic == entry.knows_extrinsic@,
        entry@.block_data is Some <==> entry.block_data is Some,
        entry.block_data matches Some(data) ==> entry@.block_data == Some(data.bytes@),
        entry@.extrinsic is Some <==> entry.extrinsic is Some,
        entry.extrinsic matches Some(extrinsic) ==> entry@.extrinsic == Some(extrinsic.bytes@),
{
}

/// A message says of what kind it is and what its fields are.
pub proof fn law_message_says(
    hash: H256,
    statement: SignedStatement,
    key: SessionKey,
    id: RequestId,
    data: BlockData,
    role: Role,
    collation: Collation,
)
    ensures
        Message::Statement(hash, statement)@ == MessageView::Statement(hash, statement.encoded@),
        Message::SessionKey(key)@ == MessageView::SessionKey(key),
        Message::RequestBlockData(id, hash)@ == MessageView::RequestBlockData(id, hash),
        Message::BlockData(id, Some(data))@ == MessageView::BlockData(id, Some(data.bytes@)),
        Message::BlockData(id, None)@ == MessageView::BlockData(id, None),
        Message::CollatorRole(role)@ == MessageView::CollatorRole(role),
        Message::Collation(hash, collation)@ == MessageView::Collation(hash, collation.encoded@),
{
}

/// An action that a peer notices says to whom it is done, and what.
pub proof fn law_action_on_peer_says<S>(
    peer: PeerId,
    message: Message,
    why: Misbehavior,
    sender: S,
    data: BlockData,
    id: RequestId,
    relay_parent: H256,
    collation: Collation,
)
    ensures
        Action::<S>::SendMessage(peer, message)@ == ActionView::<S>::SendMessage(peer, message@),
        Action::<S>::DisablePeer(peer, why)@ == ActionView::<S>::DisablePeer(peer, why),
        Action::<S>::DisconnectPeer(peer)@ == ActionView::<S>::DisconnectPeer(peer),
        Action::AnswerBlockData(sender, data)@ == ActionView::AnswerBlockData(sender, data.bytes@),
        Action::<S>::HashBlockData(peer, id, data)@ == ActionView::<S>::HashBlockData(
            peer,
            id,
            data.bytes@,
        ),
        Action::<S>::OpenCollation(peer, relay_parent, collation)@ == ActionView::<
            S,
        >::OpenCollation(peer, relay_parent, collation.encoded@),
{
}

/// An action on gossip says what gossip is told.
pub proof fn law_action_on_gossip_says<S>(
    peer: PeerId,
    raw: Vec<u8>,
    parent_hash: H256,
    bft: BftMessage,
    roles: Roles,
    old: Option<H256>,
)
    ensures
        Action::<S>::GossipMulticast(raw, parent_hash)@ == ActionView::<S>::GossipMulticast(
            raw@,
            parent_hash,
        ),
        Action::<S>::GossipChainSpecific(peer, raw, parent_hash)@ == ActionView::<
            S,
        >::GossipChainSpecific(peer, raw@, parent_hash),
        Action::<S>::GossipBftMessage(peer, bft)@ == ActionView::<S>::GossipBftMessage(
            peer,
            bft.encoded@,
        ),
        Action::<S>::GossipNewPeer(peer, roles)@ == ActionView::<S>::GossipNewPeer(peer, roles),
        Action::<S>::GossipPeerDisconnected(peer)@ == ActionView::<S>::GossipPeerDisconnected(
            peer,
        ),
        Action::<S>::GossipCollectGarbage(old)@ == ActionView::<S>::GossipCollectGarbage(old),
        Action::<S>::GossipAbort@ == ActionView::<S>::GossipAbort,
{
}

/// An action on the collator pool or on the local collations says what they are told.
pub proof fn law_action_on_collations_says<S>(
    peer: PeerId,
    account: AccountId,
    para: ParaId,
    hash: H256,
    collation: Collation,
    old: Option<H256>,
    before: SessionKey,
    key: SessionKey,
    role: Role,
    targets: HashSet<SessionKey>,
)
    ensures
        Action::<S>::NewCollator(peer, account, para)@ == ActionView::<S>::NewCollator(
            peer,
            account,
            para,
        ),
        Action::<S>::CollatorDisconnected(account)@ == ActionView::<S>::CollatorDisconnected(
            account,
        ),
        Action::<S>::CollationReceived(account, hash, collation)@ == ActionView::<
            S,
        >::CollationReceived(account, hash, collation.encoded@),
        Action::<S>::CollatorsCollectGarbage(old)@ == ActionView::<S>::CollatorsCollectGarbage(old),
        Action::<S>::MaintainCollators@ == ActionView::<S>::MaintainCollators,
        Action::<S>::FreshKey(peer, before, key)@ == ActionView::<S>::FreshKey(peer, before, key),
        Action::<S>::NoteValidatorRole(peer, key, role)@ == ActionView::<S>::NoteValidatorRole(
            peer,
            key,
            role,
        ),
        Action::<S>::ValidatorDisconnected(key)@ == ActionView::<S>::ValidatorDisconnected(key),
        Action::<S>::LocalCollectGarbage(old)@ == ActionView::<S>::LocalCollectGarbage(old),
        Action::<S>::AddLocalCollation(hash, targets, collation)@ == ActionView::<
            S,
        >::AddLocalCollation(hash, targets@, collation.encoded@),
{
}

/// A list of actions says what its members say, in their order, and so does the step that asks for
/// them.
pub proof fn law_list_says<S>(state: ProtocolView<S>, actions: Seq<Action<S>>, i: int)
    ensures
        said(actions).len() == actions.len(),
        0 <= i < actions.len() ==> said(actions)[i] == actions[i]@,
        taken(state, actions).state == state,
        taken(state, actions).actions.len() == actions.len(),
        0 <= i < actions.len() ==> taken(state, actions).actions[i] == actions[i]@,
{
}

/// An action that may be missing says what it says if it is there.
pub proof fn law_optional_action_says<S>(action: Action<S>)
    ensures
        viewed(Some(action)) == Some(action@),
        viewed(None::<Action<S>>) is None,
        listed(Some(action)).len() == 1,
        listed(Some(action))[0] == action,
        listed(None::<Action<S>>).len() == 0,
{
}

/// Block data is handed in with the hash that was computed of it.
pub proof fn law_hashed_data_says(data: BlockData, hash: H256)
    ensures
        hashed_bytes(Some((data, hash))) == Some((data.bytes@, hash)),
        hashed_bytes(None) is None,
{
}

/// Collations that are due go to the peer one by one, each under its own relay parent.
pub proof fn law_due_collations_are_sent<S>(
    peer: PeerId,
    due: Seq<(H256, Collation)>,
    i: int,
)
    ensures
        keyed_bytes(due).len() == due.len(),
        collations_to::<S>(peer, keyed_bytes(due)).len() == due.len(),
        0 <= i < due.len() ==> keyed_bytes(due)[i] == (due[i].0, due[i].1.encoded@),
        0 <= i < due.len() ==> collations_to::<S>(peer, keyed_bytes(due))[i] == ActionView::<
            S,
        >::SendMessage(peer, MessageView::Collation(due[i].0, due[i].1.encoded@)),
{
}

/// A status claims what it says, and bytes that hold none claim nothing.
pub proof fn law_claim_is_what_is_announced(chain_status: Seq<u8>)
    ensures
        match Status::announced(chain_status) {
            Some(status) => claim_of(chain_status) == status.collating_for,
            None => claim_of(chain_status) is None,
        },
{
}

/// A step that does nothing leaves the state and asks for nothing; a step that does one thing asks
/// for just that; and what is put before a step comes before what it asks for.
pub proof fn law_steps<S>(
    state: ProtocolView<S>,
    action: ActionView<S>,
    step: Step<S>,
    first: Seq<ActionView<S>>,
    i: int,
)
    ensures
        state.idle().state == state,
        state.idle().actions.len() == 0,
        state.just(action).state == state,
        state.just(action).actions.len() == 1,
        state.just(action).actions[0] == action,
        step.after(first).state == step.state,
        step.after(first).actions.len() == first.len() + step.actions.len(),
        0 <= i < first.len() ==> step.after(first).actions[i] == first[i],
        0 <= i < step.actions.len() ==> step.after(first).actions[first.len() + i]
            == step.actions[i],
{
}

} // verus!
