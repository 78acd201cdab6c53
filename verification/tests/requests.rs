use polkadot_network::action::{Action, Misbehavior};
use polkadot_network::model::CurrentConsensus;
use polkadot_network::primitives::{BlockData, CandidateReceipt, FullStatus, NetworkMessage, Roles,
    Statement};
use polkadot_network::{Knowledge, Message, PolkadotProtocol, Status};

const PARENT: [u8; 32] = [1u8; 32];
const LATER: [u8; 32] = [2u8; 32];
const LOCAL_KEY: [u8; 32] = [3u8; 32];
const CANDIDATE: [u8; 32] = [4u8; 32];
const DATA_HASH: [u8; 32] = [5u8; 32];
const WRONG_HASH: [u8; 32] = [6u8; 32];
const ALICE: [u8; 32] = [10u8; 32];
const BOB: [u8; 32] = [11u8; 32];

fn receipt() -> CandidateReceipt {
    CandidateReceipt {
        hash: CANDIDATE,
        parachain_index: 5,
        collator: [9u8; 32],
        block_data_hash: DATA_HASH,
        signature_valid: true,
    }
}

fn data(byte: u8) -> BlockData {
    BlockData { bytes: vec![byte] }
}

fn session(parent_hash: [u8; 32]) -> CurrentConsensus {
    CurrentConsensus { parent_hash, local_session_key: LOCAL_KEY }
}

fn status(authority: bool) -> FullStatus {
    FullStatus {
        roles: Roles { bits: if authority { 4 } else { 1 }, authority },
        chain_status: Status { collating_for: None }.encode(),
    }
}

/// A handler in a live session, with a validator behind peer 1 (Alice) and peer 2 (Bob).
fn live(knowledge: &Knowledge) -> PolkadotProtocol<&'static str> {
    let mut protocol = PolkadotProtocol::new(None);
    protocol.new_consensus(session(PARENT));
    protocol.on_connect(1, status(true), knowledge);
    protocol.on_connect(2, status(true), knowledge);
    protocol.on_session_key(1, ALICE, knowledge);
    protocol.on_session_key(2, BOB, knowledge);
    protocol
}

fn ask(peer: usize, id: u64) -> Action<&'static str> {
    Action::SendMessage(peer, Message::RequestBlockData(id, CANDIDATE))
}

/// What both validators have.
fn both_know() -> Knowledge {
    let mut knowledge = Knowledge::new();
    knowledge.note_statement(ALICE, &Statement::Candidate(receipt()));
    knowledge.note_statement(BOB, &Statement::Valid(CANDIDATE));
    knowledge
}

#[test]
fn data_that_is_here_is_handed_over_at_once() {
    let mut knowledge = both_know();
    knowledge.note_candidate(CANDIDATE, Some(data(7)), None);
    let mut protocol = live(&knowledge);
    assert_eq!(
        protocol.fetch_block_data(&receipt(), PARENT, "waiter", &knowledge),
        vec![Action::AnswerBlockData("waiter", data(7))]
    );
}

#[test]
fn the_first_validator_that_has_the_data_is_asked() {
    let knowledge = both_know();
    let mut protocol = live(&knowledge);
    assert_eq!(
        protocol.fetch_block_data(&receipt(), PARENT, "waiter", &knowledge),
        vec![ask(1, 1)]
    );
    assert_eq!(
        protocol.on_block_data(1, 1, Some((data(7), DATA_HASH)), &knowledge),
        vec![Action::AnswerBlockData("waiter", data(7))]
    );
    // The request is over: the same response again is not expected.
    assert_eq!(
        protocol.on_block_data(1, 1, Some((data(7), DATA_HASH)), &knowledge),
        vec![Action::DisablePeer(1, Misbehavior::UnexpectedBlockData)]
    );
}

#[test]
fn validators_that_are_not_connected_are_passed_over() {
    let mut knowledge = Knowledge::new();
    knowledge.note_statement([77u8; 32], &Statement::Available(CANDIDATE));
    knowledge.note_statement(BOB, &Statement::Valid(CANDIDATE));
    let mut protocol = live(&knowledge);
    assert_eq!(
        protocol.fetch_block_data(&receipt(), PARENT, "waiter", &knowledge),
        vec![ask(2, 1)]
    );
}

#[test]
fn wrong_data_is_asked_of_the_next_validator() {
    let knowledge = both_know();
    let mut protocol = live(&knowledge);
    protocol.fetch_block_data(&receipt(), PARENT, "waiter", &knowledge);
    assert_eq!(
        protocol.on_block_data(1, 1, Some((data(9), WRONG_HASH)), &knowledge),
        vec![ask(2, 2)]
    );
    // Both have been asked: the request waits for a third validator.
    assert_eq!(protocol.on_block_data(2, 2, None, &knowledge), vec![]);
    assert_eq!(protocol.dispatch_pending_requests(&knowledge), vec![]);
    let mut knowledge = knowledge;
    knowledge.note_candidate(CANDIDATE, Some(data(7)), None);
    assert_eq!(
        protocol.dispatch_pending_requests(&knowledge),
        vec![Action::AnswerBlockData("waiter", data(7))]
    );
    assert_eq!(protocol.dispatch_pending_requests(&knowledge), vec![]);
}

#[test]
fn nobody_is_asked_twice_however_often_it_states() {
    let mut knowledge = Knowledge::new();
    knowledge.note_statement(ALICE, &Statement::Valid(CANDIDATE));
    knowledge.note_statement(ALICE, &Statement::Available(CANDIDATE));
    let mut protocol = live(&knowledge);
    assert_eq!(
        protocol.fetch_block_data(&receipt(), PARENT, "waiter", &knowledge),
        vec![ask(1, 1)]
    );
    assert_eq!(protocol.on_block_data(1, 1, None, &knowledge), vec![]);
}

#[test]
fn only_the_asked_can_respond() {
    let knowledge = both_know();
    let mut protocol = live(&knowledge);
    protocol.fetch_block_data(&receipt(), PARENT, "waiter", &knowledge);
    assert_eq!(
        protocol.on_block_data(2, 1, Some((data(7), DATA_HASH)), &knowledge),
        vec![Action::DisablePeer(2, Misbehavior::UnexpectedBlockData)]
    );
    assert_eq!(
        protocol.on_block_data(1, 1, Some((data(7), DATA_HASH)), &knowledge),
        vec![Action::AnswerBlockData("waiter", data(7))]
    );
}

#[test]
fn requests_without_a_session_are_dropped() {
    let knowledge = both_know();
    let mut protocol: PolkadotProtocol<&'static str> = PolkadotProtocol::new(None);
    assert_eq!(protocol.fetch_block_data(&receipt(), PARENT, "waiter", &knowledge), vec![]);
    protocol.new_consensus(session(PARENT));
    protocol.on_connect(1, status(true), &knowledge);
    assert_eq!(protocol.on_session_key(1, ALICE, &knowledge), vec![]);
}

#[test]
fn requests_of_another_session_are_dropped() {
    let knowledge = both_know();
    let mut protocol = live(&knowledge);
    assert_eq!(protocol.fetch_block_data(&receipt(), LATER, "early", &knowledge), vec![]);
    protocol.new_consensus(session(LATER));
    assert_eq!(protocol.dispatch_pending_requests(&knowledge), vec![]);
}

#[test]
fn a_request_in_flight_ends_with_its_session() {
    let knowledge = both_know();
    let mut protocol = live(&knowledge);
    assert_eq!(
        protocol.fetch_block_data(&receipt(), PARENT, "waiter", &knowledge),
        vec![ask(1, 1)]
    );
    protocol.new_consensus(session(LATER));
    // Without the data the request would be asked again, but its session is over.
    assert_eq!(protocol.on_block_data(1, 1, None, &knowledge), vec![]);
    assert_eq!(protocol.dispatch_pending_requests(&knowledge), vec![]);
}

#[test]
fn right_data_is_handed_over_after_the_session_too() {
    let knowledge = both_know();
    let mut protocol = live(&knowledge);
    protocol.fetch_block_data(&receipt(), PARENT, "waiter", &knowledge);
    protocol.new_consensus(session(LATER));
    assert_eq!(
        protocol.on_block_data(1, 1, Some((data(7), DATA_HASH)), &knowledge),
        vec![Action::AnswerBlockData("waiter", data(7))]
    );
}

#[test]
fn what_a_gone_peer_was_asked_is_asked_of_another() {
    let knowledge = both_know();
    let mut protocol = live(&knowledge);
    protocol.fetch_block_data(&receipt(), PARENT, "waiter", &knowledge);
    assert_eq!(
        protocol.on_disconnect(1, &knowledge),
        vec![
            Action::ValidatorDisconnected(ALICE),
            Action::GossipPeerDisconnected(1),
            ask(2, 2),
        ]
    );
    assert_eq!(
        protocol.on_block_data(1, 1, Some((data(7), DATA_HASH)), &knowledge),
        vec![Action::DisablePeer(1, Misbehavior::UnexpectedBlockData)]
    );
    assert_eq!(
        protocol.on_block_data(2, 2, Some((data(7), DATA_HASH)), &knowledge),
        vec![Action::AnswerBlockData("waiter", data(7))]
    );
}

#[test]
fn a_new_key_wakes_what_waits() {
    let mut knowledge = Knowledge::new();
    let mut protocol = live(&knowledge);
    assert_eq!(protocol.fetch_block_data(&receipt(), PARENT, "waiter", &knowledge), vec![]);
    let carol = [12u8; 32];
    knowledge.note_statement(carol, &Statement::Valid(CANDIDATE));
    assert_eq!(protocol.dispatch_pending_requests(&knowledge), vec![]);
    assert_eq!(
        protocol.on_session_key(1, carol, &knowledge),
        vec![Action::FreshKey(1, ALICE, carol), ask(1, 1)]
    );
}

#[test]
fn several_requests_are_numbered_in_turn() {
    let mut knowledge = Knowledge::new();
    let mut protocol = live(&knowledge);
    protocol.fetch_block_data(&receipt(), PARENT, "first", &knowledge);
    protocol.fetch_block_data(&receipt(), PARENT, "second", &knowledge);
    knowledge.note_statement(BOB, &Statement::Valid(CANDIDATE));
    assert_eq!(
        protocol.maintain_peers(&knowledge),
        vec![
            Action::GossipCollectGarbage(None),
            Action::CollatorsCollectGarbage(None),
            Action::LocalCollectGarbage(None),
            ask(2, 1),
            ask(2, 2),
            Action::MaintainCollators,
        ]
    );
    assert_eq!(
        protocol.on_block_data(2, 2, Some((data(8), DATA_HASH)), &knowledge),
        vec![Action::AnswerBlockData("second", data(8))]
    );
    assert_eq!(
        protocol.on_block_data(2, 1, Some((data(8), DATA_HASH)), &knowledge),
        vec![Action::AnswerBlockData("first", data(8))]
    );
}

#[test]
fn requests_of_peers_are_answered_from_knowledge() {
    let mut knowledge = Knowledge::new();
    knowledge.note_candidate(CANDIDATE, Some(data(7)), None);
    let request = || NetworkMessage::ChainSpecific(
        Message::RequestBlockData(42, CANDIDATE).encode(),
    );
    let answer = |data| vec![Action::SendMessage(1, Message::BlockData(42, data))];
    let mut protocol = live(&knowledge);
    assert_eq!(protocol.on_message(1, request(), None, &knowledge), answer(Some(data(7))));
    assert_eq!(protocol.on_message(1, request(), None, &Knowledge::new()), answer(None));
    let mut idle: PolkadotProtocol<&'static str> = PolkadotProtocol::new(None);
    assert_eq!(idle.on_message(1, request(), None, &knowledge), answer(None));
}

#[test]
fn responses_of_peers_are_hashed_first() {
    let knowledge = both_know();
    let mut protocol = live(&knowledge);
    protocol.fetch_block_data(&receipt(), PARENT, "waiter", &knowledge);
    let response = Message::BlockData(1, Some(data(7))).encode();
    assert_eq!(
        protocol.on_message(1, NetworkMessage::ChainSpecific(response), None, &knowledge),
        vec![Action::HashBlockData(1, 1, data(7))]
    );
    let nothing = Message::BlockData(1, None).encode();
    assert_eq!(
        protocol.on_message(1, NetworkMessage::ChainSpecific(nothing), None, &knowledge),
        vec![ask(2, 2)]
    );
}

#[test]
fn there_are_numbers_left_at_first() {
    let knowledge = both_know();
    let mut protocol = live(&knowledge);
    assert!(protocol.has_numbers_for(1000));
    assert_eq!(protocol.requests_to(1), 0);
    protocol.fetch_block_data(&receipt(), PARENT, "waiter", &knowledge);
    assert!(protocol.has_numbers_for(1));
    assert!(!protocol.has_numbers_for(usize::MAX));
    assert_eq!(protocol.requests_to(1), 1);
    assert_eq!(protocol.requests_to(2), 0);
}

#[test]
fn a_third_try_goes_to_a_third_validator() {
    let mut knowledge = both_know();
    let mut protocol = live(&knowledge);
    assert_eq!(
        protocol.fetch_block_data(&receipt(), PARENT, "waiter", &knowledge),
        vec![ask(1, 1)]
    );
    assert_eq!(protocol.on_block_data(1, 1, None, &knowledge), vec![ask(2, 2)]);
    let carol = [12u8; 32];
    protocol.on_connect(3, status(true), &knowledge);
    protocol.on_session_key(3, carol, &knowledge);
    knowledge.note_statement(carol, &Statement::Valid(CANDIDATE));
    assert_eq!(
        protocol.on_disconnect(2, &knowledge),
        vec![Action::ValidatorDisconnected(BOB), Action::GossipPeerDisconnected(2), ask(3, 3)]
    );
}

#[test]
fn two_nodes_exchange_block_data() {
    let known_by_alice = {
        let mut knowledge = Knowledge::new();
        knowledge.note_candidate(CANDIDATE, Some(data(7)), None);
        knowledge
    };
    let mut alice = live(&known_by_alice);
    let knowledge = both_know();
    let mut asker = live(&knowledge);
    let mut actions = asker.fetch_block_data(&receipt(), PARENT, "waiter", &knowledge);
    let request = match actions.pop() {
        Some(Action::SendMessage(1, message)) => message.encode(),
        other => panic!("{:?}", other),
    };
    let mut actions = alice.on_message(2, NetworkMessage::ChainSpecific(request), None, &known_by_alice);
    let response = match actions.pop() {
        Some(Action::SendMessage(2, message)) => message.encode(),
        other => panic!("{:?}", other),
    };
    assert_eq!(
        asker.on_message(1, NetworkMessage::ChainSpecific(response), None, &knowledge),
        vec![Action::HashBlockData(1, 1, data(7))]
    );
}
