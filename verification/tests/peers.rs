use polkadot_network::action::{Action, Misbehavior};
use polkadot_network::model::CurrentConsensus;
use polkadot_network::primitives::{BftMessage, CandidateReceipt, Collation, CollatorAction,
    FullStatus, Header, NetworkMessage, Role, Roles, SignedStatement};
use polkadot_network::{Knowledge, Message, PolkadotProtocol, Status};
use std::collections::HashSet;

const PARENT: [u8; 32] = [1u8; 32];
const LATER: [u8; 32] = [2u8; 32];
const LOCAL_KEY: [u8; 32] = [3u8; 32];
const NEW_KEY: [u8; 32] = [4u8; 32];
const ALICE: [u8; 32] = [10u8; 32];
const BOB: [u8; 32] = [11u8; 32];
const COLLATOR: [u8; 32] = [20u8; 32];

type Protocol = PolkadotProtocol<u8>;

fn session(parent_hash: [u8; 32], local_session_key: [u8; 32]) -> CurrentConsensus {
    CurrentConsensus { parent_hash, local_session_key }
}

fn roles(authority: bool) -> Roles {
    Roles { bits: if authority { 4 } else { 1 }, authority }
}

fn status(authority: bool, collating_for: Option<([u8; 32], u32)>) -> FullStatus {
    FullStatus { roles: roles(authority), chain_status: Status { collating_for }.encode() }
}

fn with_validator() -> Protocol {
    let knowledge = Knowledge::new();
    let mut protocol = Protocol::new(None);
    protocol.on_connect(1, status(true, None), &knowledge);
    protocol.on_session_key(1, ALICE, &knowledge);
    protocol
}

fn with_collator() -> Protocol {
    let mut protocol = Protocol::new(None);
    protocol.on_connect(5, status(false, Some((COLLATOR, 100))), &Knowledge::new());
    protocol
}

fn receipt() -> CandidateReceipt {
    CandidateReceipt {
        hash: [30u8; 32],
        parachain_index: 100,
        collator: COLLATOR,
        block_data_hash: [31u8; 32],
        signature_valid: true,
    }
}

fn collation() -> Collation {
    Collation { encoded: vec![1, 2, 3] }
}

#[test]
fn own_status_is_encoded() {
    assert_eq!(Protocol::new(None).status(), vec![0]);
    let bytes = Protocol::new(Some((COLLATOR, 100))).status();
    assert_eq!(
        Status::decode(&bytes).0,
        Some(Status { collating_for: Some((COLLATOR, 100)) })
    );
}

#[test]
fn own_status_never_changes() {
    let knowledge = Knowledge::new();
    let mut protocol = Protocol::new(Some((COLLATOR, 100)));
    let bytes = protocol.status();
    protocol.new_consensus(session(PARENT, LOCAL_KEY));
    protocol.on_connect(1, status(true, Some((ALICE, 7))), &knowledge);
    protocol.on_session_key(1, ALICE, &knowledge);
    protocol.maintain_peers(&knowledge);
    protocol.on_disconnect(1, &knowledge);
    assert_eq!(protocol.status(), bytes);
}

#[test]
fn a_plain_peer_is_told_nothing() {
    let mut protocol = Protocol::new(None);
    protocol.new_consensus(session(PARENT, LOCAL_KEY));
    assert_eq!(
        protocol.on_connect(7, status(false, None), &Knowledge::new()),
        vec![Action::GossipNewPeer(7, roles(false))]
    );
}

#[test]
fn a_validator_is_told_the_session_key() {
    let mut protocol = Protocol::new(None);
    assert_eq!(
        protocol.on_connect(7, status(true, None), &Knowledge::new()),
        vec![Action::GossipNewPeer(7, roles(true))]
    );
    protocol.new_consensus(session(PARENT, LOCAL_KEY));
    assert_eq!(
        protocol.on_connect(8, status(true, None), &Knowledge::new()),
        vec![
            Action::GossipNewPeer(8, roles(true)),
            Action::SendMessage(8, Message::SessionKey(LOCAL_KEY)),
        ]
    );
}

#[test]
fn a_collator_is_registered_and_told_the_session_key() {
    let mut protocol = Protocol::new(None);
    protocol.new_consensus(session(PARENT, LOCAL_KEY));
    assert_eq!(
        protocol.on_connect(5, status(false, Some((COLLATOR, 100))), &Knowledge::new()),
        vec![
            Action::NewCollator(5, COLLATOR, 100),
            Action::GossipNewPeer(5, roles(false)),
            Action::SendMessage(5, Message::SessionKey(LOCAL_KEY)),
        ]
    );
    assert_eq!(protocol.collator_peer_id(COLLATOR), Some(5));
    assert_eq!(
        protocol.on_collator_role(5, Role::Backup),
        Action::SendMessage(5, Message::CollatorRole(Role::Backup))
    );
}

#[test]
fn a_claim_that_is_taken_is_refused() {
    let mut protocol = with_collator();
    assert_eq!(
        protocol.on_connect(6, status(true, Some((COLLATOR, 7))), &Knowledge::new()),
        vec![Action::DisconnectPeer(6)]
    );
    assert_eq!(protocol.collator_peer_id(COLLATOR), Some(5));
    // Peer 6 has not been taken up.
    assert_eq!(protocol.on_disconnect(6, &Knowledge::new()), vec![]);
    // Once the holder is gone the account is free.
    protocol.on_disconnect(5, &Knowledge::new());
    assert_eq!(protocol.collator_peer_id(COLLATOR), None);
    protocol.on_connect(6, status(true, Some((COLLATOR, 7))), &Knowledge::new());
    assert_eq!(protocol.collator_peer_id(COLLATOR), Some(6));
}

#[test]
fn a_status_that_is_none_counts_as_not_collating() {
    let mut protocol = Protocol::new(None);
    let status = FullStatus { roles: roles(false), chain_status: vec![9, 9] };
    assert_eq!(
        protocol.on_connect(7, status, &Knowledge::new()),
        vec![Action::GossipNewPeer(7, roles(false))]
    );
    let silent = FullStatus { roles: roles(false), chain_status: vec![0] };
    assert_eq!(
        protocol.on_connect(8, silent, &Knowledge::new()),
        vec![Action::GossipNewPeer(8, roles(false))]
    );
}

#[test]
fn a_new_session_key_is_told_to_validators_and_collators() {
    let knowledge = Knowledge::new();
    let mut protocol = Protocol::new(None);
    protocol.on_connect(1, status(true, None), &knowledge);
    protocol.on_connect(2, status(false, None), &knowledge);
    protocol.on_connect(5, status(false, Some((COLLATOR, 100))), &knowledge);
    let mut actions = protocol.new_consensus(session(PARENT, LOCAL_KEY));
    assert_eq!(actions.pop(), Some(Action::GossipCollectGarbage(None)));
    assert_eq!(actions.len(), 2);
    assert!(actions.contains(&Action::SendMessage(1, Message::SessionKey(LOCAL_KEY))));
    assert!(actions.contains(&Action::SendMessage(5, Message::SessionKey(LOCAL_KEY))));
    // The same key in the next session is no news.
    assert_eq!(
        protocol.new_consensus(session(LATER, LOCAL_KEY)),
        vec![Action::GossipCollectGarbage(Some(PARENT))]
    );
    let mut actions = protocol.new_consensus(session(PARENT, NEW_KEY));
    assert_eq!(actions.pop(), Some(Action::GossipCollectGarbage(Some(LATER))));
    assert_eq!(actions.len(), 2);
}

#[test]
fn a_key_without_authority_is_misbehavior() {
    let mut protocol = with_collator();
    assert_eq!(
        protocol.on_session_key(5, ALICE, &Knowledge::new()),
        vec![Action::DisablePeer(5, Misbehavior::KeyWithoutAuthority)]
    );
}

#[test]
fn a_key_from_a_stranger_is_ignored() {
    let mut protocol = Protocol::new(None);
    assert_eq!(protocol.on_session_key(5, ALICE, &Knowledge::new()), vec![]);
    assert_eq!(
        protocol.on_collation_added(PARENT, vec![(ALICE, collation())]),
        vec![]
    );
}

#[test]
fn a_fresh_key_takes_the_place_of_the_old_one() {
    let mut protocol = with_validator();
    assert_eq!(
        protocol.on_session_key(1, BOB, &Knowledge::new()),
        vec![Action::FreshKey(1, ALICE, BOB)]
    );
    assert_eq!(
        protocol.on_collation_added(
            PARENT,
            vec![(ALICE, Collation { encoded: vec![1] }), (BOB, Collation { encoded: vec![2] })],
        ),
        vec![Action::SendMessage(
            1,
            Message::Collation(PARENT, Collation { encoded: vec![2] }),
        )]
    );
}

#[test]
fn a_validator_gives_a_role() {
    let protocol = with_validator();
    assert_eq!(
        protocol.on_new_role(1, Role::Primary),
        Some(Action::NoteValidatorRole(1, ALICE, Role::Primary))
    );
    assert_eq!(protocol.on_new_role(9, Role::Primary), None);
    let due = vec![(PARENT, Collation { encoded: vec![1] }), (LATER, collation())];
    assert_eq!(
        protocol.on_collations_due(1, due),
        vec![
            Action::SendMessage(1, Message::Collation(PARENT, Collation { encoded: vec![1] })),
            Action::SendMessage(1, Message::Collation(LATER, collation())),
        ]
    );
}

#[test]
fn a_role_without_a_key_is_misbehavior() {
    let mut protocol = with_collator();
    let message = NetworkMessage::ChainSpecific(Message::CollatorRole(Role::Backup).encode());
    assert_eq!(
        protocol.on_message(5, message, None, &Knowledge::new()),
        vec![Action::DisablePeer(5, Misbehavior::RoleWithoutKey)]
    );
}

#[test]
fn a_collator_that_disconnects_is_replaced() {
    let mut protocol = with_collator();
    let knowledge = Knowledge::new();
    protocol.on_connect(6, status(false, Some((ALICE, 100))), &knowledge);
    assert_eq!(
        protocol.on_disconnect(5, &knowledge),
        vec![Action::CollatorDisconnected(COLLATOR), Action::GossipPeerDisconnected(5)]
    );
    assert_eq!(
        protocol.on_new_primary(Some(ALICE)),
        Some(Action::SendMessage(6, Message::CollatorRole(Role::Primary)))
    );
    assert_eq!(protocol.on_new_primary(Some(COLLATOR)), None);
    assert_eq!(protocol.on_new_primary(None), None);
    assert_eq!(protocol.on_disconnect(5, &knowledge), vec![]);
}

#[test]
fn the_collator_pool_is_served() {
    let protocol = with_collator();
    assert_eq!(
        protocol.on_collator_actions(vec![
            CollatorAction::NewRole(COLLATOR, Role::Primary),
            CollatorAction::NewRole(ALICE, Role::Primary),
            CollatorAction::Disconnect(ALICE),
            CollatorAction::Disconnect(COLLATOR),
        ]),
        vec![
            Action::SendMessage(5, Message::CollatorRole(Role::Primary)),
            Action::DisablePeer(5, Misbehavior::BadCollator),
        ]
    );
    assert_eq!(
        protocol.disconnect_bad_collator(COLLATOR),
        Some(Action::DisablePeer(5, Misbehavior::BadCollator))
    );
    assert_eq!(protocol.disconnect_bad_collator(ALICE), None);
}

#[test]
fn a_collation_goes_to_the_pool() {
    let protocol = with_collator();
    assert_eq!(
        protocol.on_collation(5, PARENT, &receipt(), collation()),
        Action::CollationReceived(COLLATOR, PARENT, collation())
    );
    assert_eq!(
        protocol.on_collation_opened(5, PARENT, Some((receipt(), collation()))),
        Action::CollationReceived(COLLATOR, PARENT, collation())
    );
}

#[test]
fn a_malformed_collation_is_misbehavior() {
    let protocol = with_collator();
    let malformed = Action::DisablePeer(5, Misbehavior::MalformedCollation);
    let other_para = CandidateReceipt { parachain_index: 101, ..receipt() };
    let other_collator = CandidateReceipt { collator: ALICE, ..receipt() };
    let unsigned = CandidateReceipt { signature_valid: false, ..receipt() };
    for receipt in vec![other_para, other_collator, unsigned] {
        assert_eq!(protocol.on_collation(5, PARENT, &receipt, collation()), malformed);
    }
    assert_eq!(
        protocol.on_collation_opened(5, PARENT, None),
        Action::DisablePeer(5, Misbehavior::InvalidMessage)
    );
}

#[test]
fn a_collation_of_a_peer_that_does_not_collate_is_misbehavior() {
    let protocol = with_validator();
    assert_eq!(
        protocol.on_collation(1, PARENT, &receipt(), collation()),
        Action::DisablePeer(1, Misbehavior::CollationWithoutIntent)
    );
    assert_eq!(
        protocol.on_collation(2, PARENT, &receipt(), collation()),
        Action::DisconnectPeer(2)
    );
}

#[test]
fn messages_are_routed() {
    let mut protocol = with_validator();
    let knowledge = Knowledge::new();
    let statement = || SignedStatement { encoded: vec![4, 5] };
    // What follows the statement is gossiped with it.
    let mut raw = Message::Statement(PARENT, statement()).encode();
    raw.push(77);
    assert_eq!(
        protocol.on_message(1, NetworkMessage::ChainSpecific(raw.clone()), Some(2), &knowledge),
        vec![Action::GossipChainSpecific(1, raw.clone(), PARENT)]
    );
    assert_eq!(
        protocol.on_message(1, NetworkMessage::ChainSpecific(raw), None, &knowledge),
        vec![Action::DisablePeer(1, Misbehavior::InvalidMessage)]
    );
    // What follows the collation is not part of it.
    let mut raw = Message::Collation(PARENT, collation()).encode();
    raw.push(77);
    assert_eq!(
        protocol.on_message(1, NetworkMessage::ChainSpecific(raw.clone()), Some(3), &knowledge),
        vec![Action::OpenCollation(1, PARENT, collation())]
    );
    assert_eq!(
        protocol.on_message(1, NetworkMessage::ChainSpecific(raw), None, &knowledge),
        vec![Action::DisablePeer(1, Misbehavior::InvalidMessage)]
    );
    let raw = Message::SessionKey(BOB).encode();
    assert_eq!(
        protocol.on_message(1, NetworkMessage::ChainSpecific(raw), None, &knowledge),
        vec![Action::FreshKey(1, ALICE, BOB)]
    );
    let bft = || BftMessage { encoded: vec![6] };
    assert_eq!(
        protocol.on_message(1, NetworkMessage::BftMessage(bft()), None, &knowledge),
        vec![Action::GossipBftMessage(1, bft())]
    );
    assert_eq!(protocol.on_message(1, NetworkMessage::Other, None, &knowledge), vec![]);
    assert_eq!(
        protocol.on_message(1, NetworkMessage::ChainSpecific(vec![6]), None, &knowledge),
        vec![Action::DisablePeer(1, Misbehavior::InvalidMessage)]
    );
}

#[test]
fn strangers_change_nothing() {
    let mut protocol = Protocol::new(None);
    let knowledge = Knowledge::new();
    let role = NetworkMessage::ChainSpecific(Message::CollatorRole(Role::Primary).encode());
    assert_eq!(protocol.on_message(9, role, None, &knowledge), vec![]);
    let key = NetworkMessage::ChainSpecific(Message::SessionKey(ALICE).encode());
    assert_eq!(protocol.on_message(9, key, None, &knowledge), vec![]);
    let data = NetworkMessage::ChainSpecific(Message::BlockData(1, None).encode());
    assert_eq!(
        protocol.on_message(9, data, None, &knowledge),
        vec![Action::DisablePeer(9, Misbehavior::UnexpectedBlockData)]
    );
    assert_eq!(protocol.on_disconnect(9, &knowledge), vec![]);
}

#[test]
fn statements_are_gossiped() {
    let protocol = Protocol::new(None);
    let statement = || SignedStatement { encoded: vec![4, 5] };
    assert_eq!(
        protocol.send_statement(ALICE, PARENT, statement()),
        Action::GossipMulticast(Message::Statement(PARENT, statement()).encode(), PARENT)
    );
}

#[test]
fn imports_and_aborts_are_passed_on() {
    let protocol = Protocol::new(None);
    assert_eq!(
        protocol.on_block_imported(LATER, &Header { parent_hash: PARENT }),
        vec![
            Action::CollatorsCollectGarbage(Some(LATER)),
            Action::LocalCollectGarbage(Some(PARENT)),
        ]
    );
    assert_eq!(protocol.on_abort(), Action::GossipAbort);
}

#[test]
fn a_local_collation_is_added() {
    let protocol = with_validator();
    let mut targets = HashSet::new();
    targets.insert(ALICE);
    assert_eq!(
        protocol.add_local_collation(PARENT, targets.clone(), collation()),
        Action::AddLocalCollation(PARENT, targets, collation())
    );
    assert_eq!(protocol.validator_peer_id(&ALICE), Some(1));
    assert_eq!(protocol.validator_peer_id(&BOB), None);
    assert_eq!(
        protocol.on_collation_added(PARENT, vec![(BOB, collation()), (ALICE, collation())]),
        vec![Action::SendMessage(1, Message::Collation(PARENT, collation()))]
    );
}

#[test]
fn reasons_in_words() {
    let reasons = vec![
        (
            Misbehavior::KeyWithoutAuthority,
            "Session key broadcasted without setting authority role",
        ),
        (Misbehavior::UnexpectedBlockData, "Unexpected block data response"),
        (
            Misbehavior::RoleWithoutKey,
            "Sent collator role without registering first as validator",
        ),
        (Misbehavior::InvalidMessage, "Invalid polkadot protocol message format"),
        (
            Misbehavior::CollationWithoutIntent,
            "Sent collation without registering collator intent",
        ),
        (Misbehavior::MalformedCollation, "Sent malformed collation"),
        (
            Misbehavior::BadCollator,
            "Consensus layer determined the given collator misbehaved",
        ),
    ];
    for (misbehavior, words) in reasons {
        assert_eq!(misbehavior.reason(), words);
    }
}
