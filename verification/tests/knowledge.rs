use polkadot_network::key_table::{KeySet, KeyTable};
use polkadot_network::primitives::{BlockData, CandidateReceipt, Extrinsic, Statement};
use polkadot_network::Knowledge;

const CANDIDATE: [u8; 32] = [1u8; 32];
const OTHER: [u8; 32] = [2u8; 32];
const ALICE: [u8; 32] = [10u8; 32];
const BOB: [u8; 32] = [11u8; 32];

fn receipt() -> CandidateReceipt {
    CandidateReceipt {
        hash: CANDIDATE,
        parachain_index: 5,
        collator: [9u8; 32],
        block_data_hash: [8u8; 32],
        signature_valid: true,
    }
}

fn data(byte: u8) -> BlockData {
    BlockData { bytes: vec![byte] }
}

#[test]
fn nothing_is_known_at_first() {
    let knowledge = Knowledge::new();
    assert!(knowledge.entry(&CANDIDATE).is_none());
    assert_eq!(knowledge.block_data(&CANDIDATE), None);
}

#[test]
fn proposers_and_guarantors_have_both_kinds_of_data() {
    let mut knowledge = Knowledge::new();
    knowledge.note_statement(ALICE, &Statement::Candidate(receipt()));
    knowledge.note_statement(BOB, &Statement::Available(CANDIDATE));
    let entry = knowledge.entry(&CANDIDATE).unwrap();
    assert_eq!(entry.knows_block_data, vec![ALICE, BOB]);
    assert_eq!(entry.knows_extrinsic, vec![ALICE, BOB]);
    assert_eq!(entry.block_data, None);
    assert_eq!(entry.extrinsic, None);
}

#[test]
fn voters_have_block_data() {
    let mut knowledge = Knowledge::new();
    knowledge.note_statement(ALICE, &Statement::Valid(CANDIDATE));
    knowledge.note_statement(BOB, &Statement::Invalid(CANDIDATE));
    knowledge.note_statement(ALICE, &Statement::Valid(CANDIDATE));
    let entry = knowledge.entry(&CANDIDATE).unwrap();
    assert_eq!(entry.knows_block_data, vec![ALICE, BOB, ALICE]);
    assert!(entry.knows_extrinsic.is_empty());
    assert!(knowledge.entry(&OTHER).is_none());
}

#[test]
fn block_data_is_kept_once_it_is_here() {
    let mut knowledge = Knowledge::new();
    knowledge.note_candidate(CANDIDATE, None, None);
    assert_eq!(knowledge.block_data(&CANDIDATE), None);
    knowledge.note_candidate(CANDIDATE, Some(data(1)), None);
    assert_eq!(knowledge.block_data(&CANDIDATE), Some(data(1)));
    knowledge.note_candidate(CANDIDATE, Some(data(2)), Some(Extrinsic { bytes: vec![3] }));
    knowledge.note_statement(ALICE, &Statement::Invalid(CANDIDATE));
    knowledge.note_candidate(OTHER, Some(data(4)), None);
    assert_eq!(knowledge.block_data(&CANDIDATE), Some(data(1)));
    assert_eq!(knowledge.block_data(&OTHER), Some(data(4)));
    let entry = knowledge.entry(&CANDIDATE).unwrap();
    assert_eq!(entry.extrinsic, Some(Extrinsic { bytes: vec![3] }));
    assert_eq!(entry.knows_block_data, vec![ALICE]);
}

#[test]
fn table_holds_one_value_per_key() {
    let mut table: KeyTable<u32> = KeyTable::new();
    table.insert(ALICE, 1);
    table.insert(BOB, 2);
    table.insert(ALICE, 3);
    assert_eq!(table.get(&ALICE), Some(&3));
    assert_eq!(table.get(&BOB), Some(&2));
    assert_eq!(table.remove(&ALICE), Some(3));
    assert_eq!(table.remove(&ALICE), None);
    assert_eq!(table.get(&ALICE), None);
    assert_eq!(table.get(&BOB), Some(&2));
}

#[test]
fn set_says_what_is_new() {
    let mut set = KeySet::new();
    assert!(!set.contains(&ALICE));
    assert!(set.insert(ALICE));
    assert!(!set.insert(ALICE));
    assert!(set.contains(&ALICE));
    assert!(!set.contains(&BOB));
}
