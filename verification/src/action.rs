//! What the protocol asks the node around it to do.
use std::collections::HashSet;
use vstd::prelude::*;

use crate::message::{Message, MessageView};
use crate::primitives::{AccountId, BftMessage, BlockData, Collation, H256, ParaId, PeerId,
    RequestId, Role, Roles, SessionKey};

verus! {

/// Why a peer is disabled.
#[derive(Clone, Copy, Debug, PartialEq, Eq, Structural)]
pub enum Misbehavior {
    KeyWithoutAuthority,
    UnexpectedBlockData,
    RoleWithoutKey,
    InvalidMessage,
    CollationWithoutIntent,
    MalformedCollation,
    BadCollator,
}

impl Misbehavior {
    /// The reason in words.
    pub open spec fn words(self) -> Seq<char> {
        match self {
            Misbehavior::KeyWithoutAuthority =>
                "Session key broadcasted without setting authority role"@,
            Misbehavior::UnexpectedBlockData => "Unexpected block data response"@,
            Misbehavior::RoleWithoutKey =>
                "Sent collator role without registering first as validator"@,
            Misbehavior::InvalidMessage => "Invalid polkadot protocol message format"@,
            Misbehavior::CollationWithoutIntent =>
                "Sent collation without registering collator intent"@,
            Misbehavior::MalformedCollation => "Sent malformed collation"@,
            Misbehavior::BadCollator =>
                "Consensus layer determined the given collator misbehaved"@,
        }
    }

    /// The reason in words.
    pub fn reason(&self) -> (r: &'static str)
        ensures
            r@ == self.words(),
    {
        match self {
            Misbehavior::KeyWithoutAuthority =>
                "Session key broadcasted without setting authority role",
            Misbehavior::UnexpectedBlockData => "Unexpected block data response",
            Misbehavior::RoleWithoutKey =>
                "Sent collator role without registering first as validator",
            Misbehavior::InvalidMessage => "Invalid polkadot protocol message format",
            Misbehavior::CollationWithoutIntent =>
                "Sent collation without registering collator intent",
            Misbehavior::MalformedCollation => "Sent malformed collation",
            Misbehavior::BadCollator => "Consensus layer determined the given collator misbehaved",
        }
    }
}

/// One thing to do. The actions of a step are done in their order.
///
/// `S` is the sending end on which block data is awaited.
#[derive(Debug, PartialEq, Eq)]
pub enum Action<S> {
    /// Send a message to a peer.
    SendMessage(PeerId, Message),
    /// Disconnect a peer for good.
    DisablePeer(PeerId, Misbehavior),
    /// Disconnect a peer.
    DisconnectPeer(PeerId),
    /// Hand block data to who waits for it.
    AnswerBlockData(S, BlockData),
    /// Compute the hash of the block data that a peer sent in response to a request, and go on
    /// with `on_block_data`.
    HashBlockData(PeerId, RequestId, BlockData),
    /// Read the receipt of a collation that a peer sent under a relay parent, check its
    /// signature, and go on with `on_collation_opened`.
    OpenCollation(PeerId, H256, Collation),
    /// Gossip an encoded message under a parent hash.
    GossipMulticast(Vec<u8>, H256),
    /// Tell gossip of an encoded message that a peer sent, and of its parent hash.
    GossipChainSpecific(PeerId, Vec<u8>, H256),
    /// Tell gossip of a BFT message that a peer sent.
    GossipBftMessage(PeerId, BftMessage),
    /// Tell gossip of a new peer.
    GossipNewPeer(PeerId, Roles),
    /// Tell gossip that a peer is gone.
    GossipPeerDisconnected(PeerId),
    /// Let gossip forget what is old, all that is under the given parent hash included.
    GossipCollectGarbage(Option<H256>),
    /// Stop gossip.
    GossipAbort,
    /// Tell the collator pool of a new collator, and go on with `on_collator_role`.
    NewCollator(PeerId, AccountId, ParaId),
    /// Tell the collator pool that a collator is gone, and go on with `on_new_primary`.
    CollatorDisconnected(AccountId),
    /// Hand a collation to the collator pool: the collator, the relay parent and the collation.
    CollationReceived(AccountId, H256, Collation),
    /// Let the collator pool forget what is old.
    CollatorsCollectGarbage(Option<H256>),
    /// Maintain the collator pool, and go on with `on_collator_actions`.
    MaintainCollators,
    /// Tell the local collations that a validator goes by a new key (the old one, then the new
    /// one), and go on with `on_collations_due` for the peer.
    FreshKey(PeerId, SessionKey, SessionKey),
    /// Tell the local collations of the role that a validator gives us, and go on with
    /// `on_collations_due` for the peer.
    NoteValidatorRole(PeerId, SessionKey, Role),
    /// Tell the local collations that a validator is gone.
    ValidatorDisconnected(SessionKey),
    /// Let the local collations forget what is old.
    LocalCollectGarbage(Option<H256>),
    /// Add a collation to the local ones (the relay parent, the validators that it is for and the
    /// collation), and go on with `on_collation_added`.
    AddLocalCollation(H256, HashSet<SessionKey>, Collation),
}

/// What an action says, collections taken by their contents.
pub enum ActionView<S> {
    SendMessage(PeerId, MessageView),
    DisablePeer(PeerId, Misbehavior),
    DisconnectPeer(PeerId),
    AnswerBlockData(S, Seq<u8>),
    HashBlockData(PeerId, RequestId, Seq<u8>),
    OpenCollation(PeerId, H256, Seq<u8>),
    GossipMulticast(Seq<u8>, H256),
    GossipChainSpecific(PeerId, Seq<u8>, H256),
    GossipBftMessage(PeerId, Seq<u8>),
    GossipNewPeer(PeerId, Roles),
    GossipPeerDisconnected(PeerId),
    GossipCollectGarbage(Option<H256>),
    GossipAbort,
    NewCollator(PeerId, AccountId, ParaId),
    CollatorDisconnected(AccountId),
    CollationReceived(AccountId, H256, Seq<u8>),
    CollatorsCollectGarbage(Option<H256>),
    MaintainCollators,
    FreshKey(PeerId, SessionKey, SessionKey),
    NoteValidatorRole(PeerId, SessionKey, Role),
    ValidatorDisconnected(SessionKey),
    LocalCollectGarbage(Option<H256>),
    AddLocalCollation(H256, Set<SessionKey>, Seq<u8>),
}

impl<S> View for Action<S> {
    type V = ActionView<S>;

    open spec fn view(&self) -> ActionView<S> {
        match *self {
            Action::SendMessage(to, message) => ActionView::SendMessage(to, message@),
            Action::DisablePeer(peer, why) => ActionView::DisablePeer(peer, why),
            Action::DisconnectPeer(peer) => ActionView::DisconnectPeer(peer),
            Action::AnswerBlockData(sender, data) => ActionView::AnswerBlockData(sender, data@),
            Action::HashBlockData(peer, id, data) => ActionView::HashBlockData(peer, id, data@),
            Action::OpenCollation(peer, hash, collation) => ActionView::OpenCollation(
                peer,
                hash,
                collation@,
            ),
            Action::GossipMulticast(raw, hash) => ActionView::GossipMulticast(raw@, hash),
            Action::GossipChainSpecific(peer, raw, hash) => ActionView::GossipChainSpecific(
                peer,
                raw@,
                hash,
            ),
            Action::GossipBftMessage(peer, message) => ActionView::GossipBftMessage(
                peer,
                message@,
            ),
            Action::GossipNewPeer(peer, roles) => ActionView::GossipNewPeer(peer, roles),
            Action::GossipPeerDisconnected(peer) => ActionView::GossipPeerDisconnected(peer),
            Action::GossipCollectGarbage(hash) => ActionView::GossipCollectGarbage(hash),
            Action::GossipAbort => ActionView::GossipAbort,
            Action::NewCollator(peer, account, para) => ActionView::NewCollator(
                peer,
                account,
                para,
            ),
            Action::CollatorDisconnected(account) => ActionView::CollatorDisconnected(account),
            Action::CollationReceived(account, hash, collation) => ActionView::CollationReceived(
                account,
                hash,
                collation@,
            ),
            Action::CollatorsCollectGarbage(hash) => ActionView::CollatorsCollectGarbage(hash),
            Action::MaintainCollators => ActionView::MaintainCollators,
            Action::FreshKey(peer, before, after) => ActionView::FreshKey(peer, before, after),
            Action::NoteValidatorRole(peer, key, role) => ActionView::NoteValidatorRole(
                peer,
                key,
                role,
            ),
            Action::ValidatorDisconnected(key) => ActionView::ValidatorDisconnected(key),
            Action::LocalCollectGarbage(hash) => ActionView::LocalCollectGarbage(hash),
            Action::AddLocalCollation(hash, targets, collation) => ActionView::AddLocalCollation(
                hash,
                targets@,
                collation@,
            ),
        }
    }
}

/// What a list of actions says.
pub open spec fn said<S>(actions: Seq<Action<S>>) -> Seq<ActionView<S>> {
    actions.map_values(|action: Action<S>| action@)
}

} // verus!
