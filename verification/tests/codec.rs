use polkadot_network::codec::read_bytes;
use polkadot_network::message::{Message, Payload};
use polkadot_network::primitives::{BlockData, Collation, NetworkMessage, Role, SignedStatement};
use polkadot_network::protocol::send_polkadot_message;
use polkadot_network::status::Status;
use polkadot_network::DOT_PROTOCOL_ID;

/// Reads a message whose payload is so long, with nothing behind it.
fn whole(bytes: &[u8], read_len: Option<usize>) -> Option<Message> {
    let (message, rest) = Message::decode(bytes, read_len);
    assert!(message.is_none() || rest.is_empty());
    message
}

fn joined(parts: &[&[u8]]) -> Vec<u8> {
    parts.concat()
}

#[test]
fn protocol_id_spells_dot() {
    assert_eq!(&DOT_PROTOCOL_ID, b"dot");
}

#[test]
fn status_round_trip() {
    let status = Status { collating_for: Some(([7u8; 32], 258)) };
    let bytes = status.encode();
    assert_eq!(bytes, joined(&[&[1], &[7u8; 32], &[2, 1, 0, 0]]));
    assert_eq!(Status::decode(&bytes), (Some(status), &[][..]));
}

#[test]
fn status_of_a_node_that_does_not_collate() {
    let status = Status { collating_for: None };
    assert_eq!(status.encode(), vec![0]);
    assert_eq!(Status::decode(&[0]), (Some(status), &[][..]));
}

#[test]
fn status_leaves_what_follows() {
    let status = Status { collating_for: Some(([7u8; 32], u32::MAX)) };
    let mut bytes = status.encode();
    bytes.extend_from_slice(&[1, 2, 3]);
    assert_eq!(Status::decode(&bytes), (Some(status), &[1, 2, 3][..]));
    assert_eq!(Status::decode(&[0, 9]), (Some(Status { collating_for: None }), &[9][..]));
}

#[test]
fn status_that_is_none() {
    assert_eq!(Status::decode(&[]).0, None);
    assert_eq!(Status::decode(&[2]).0, None);
    assert_eq!(Status::decode(&[255, 0, 0]).0, None);
    let bytes = Status { collating_for: Some(([7u8; 32], 258)) }.encode();
    for length in 1..bytes.len() {
        assert_eq!(Status::decode(&bytes[..length]).0, None);
    }
}

#[test]
fn status_is_appended() {
    let mut dest = vec![9];
    Status { collating_for: None }.encode_to(&mut dest);
    assert_eq!(dest, vec![9, 0]);
}

#[test]
fn statement_bytes() {
    let message = Message::Statement([3u8; 32], SignedStatement { encoded: vec![8, 9] });
    let bytes = message.encode();
    assert_eq!(bytes, joined(&[&[0], &[3u8; 32], &[8, 9]]));
    assert_eq!(Message::unread(&bytes), Some((Payload::Statement, &[8, 9][..])));
    assert_eq!(whole(&bytes, Some(2)), Some(message));
}

#[test]
fn session_key_bytes() {
    let message = Message::SessionKey([4u8; 32]);
    let bytes = message.encode();
    assert_eq!(bytes, joined(&[&[1], &[4u8; 32]]));
    assert_eq!(whole(&bytes, None), Some(message));
}

#[test]
fn request_block_data_bytes() {
    let message = Message::RequestBlockData(0x0102030405060708, [5u8; 32]);
    let bytes = message.encode();
    assert_eq!(bytes, joined(&[&[2], &[8, 7, 6, 5, 4, 3, 2, 1], &[5u8; 32]]));
    assert_eq!(whole(&bytes, None), Some(message));
}

#[test]
fn block_data_bytes() {
    let data = BlockData { bytes: vec![10, 20, 30] };
    let message = Message::BlockData(258, Some(data));
    let bytes = message.encode();
    assert_eq!(
        bytes,
        joined(&[&[3], &[2, 1, 0, 0, 0, 0, 0, 0], &[1], &[3, 0, 0, 0], &[10, 20, 30]])
    );
    assert_eq!(whole(&bytes, None), Some(message));
}

#[test]
fn unknown_block_data_bytes() {
    let message = Message::BlockData(u64::MAX, None);
    let bytes = message.encode();
    assert_eq!(bytes, joined(&[&[3], &[255; 8], &[0]]));
    assert_eq!(whole(&bytes, None), Some(message));
}

#[test]
fn empty_block_data_is_not_unknown_block_data() {
    let empty = Message::BlockData(1, Some(BlockData { bytes: vec![] }));
    assert_eq!(empty.encode(), vec![3, 1, 0, 0, 0, 0, 0, 0, 0, 1, 0, 0, 0, 0]);
    assert_eq!(whole(&empty.encode(), None), Some(empty));
}

#[test]
fn collator_role_bytes() {
    assert_eq!(Message::CollatorRole(Role::Primary).encode(), vec![4, 0]);
    assert_eq!(Message::CollatorRole(Role::Backup).encode(), vec![4, 1]);
    assert_eq!(whole(&[4, 0], None), Some(Message::CollatorRole(Role::Primary)));
    assert_eq!(whole(&[4, 1], None), Some(Message::CollatorRole(Role::Backup)));
}

#[test]
fn collation_bytes() {
    let message = Message::Collation([6u8; 32], Collation { encoded: vec![1, 2, 3] });
    let bytes = message.encode();
    assert_eq!(bytes, joined(&[&[5], &[6u8; 32], &[1, 2, 3]]));
    assert_eq!(Message::unread(&bytes), Some((Payload::Collation, &[1, 2, 3][..])));
    assert_eq!(whole(&bytes, Some(3)), Some(message));
}

#[test]
fn message_is_appended() {
    let mut dest = vec![7];
    Message::CollatorRole(Role::Backup).encode_to(&mut dest);
    assert_eq!(dest, vec![7, 4, 1]);
}

#[test]
fn message_leaves_what_follows() {
    let rest = [99, 98];
    let messages = vec![
        Message::SessionKey([4u8; 32]),
        Message::RequestBlockData(1, [5u8; 32]),
        Message::BlockData(1, None),
        Message::BlockData(1, Some(BlockData { bytes: vec![1, 2, 3] })),
        Message::CollatorRole(Role::Backup),
    ];
    for message in messages {
        let mut bytes = message.encode();
        bytes.extend_from_slice(&rest);
        assert_eq!(Message::unread(&bytes), None);
        assert_eq!(Message::decode(&bytes, None), (Some(message), &rest[..]));
    }
}

#[test]
fn payload_ends_where_its_reader_says() {
    let rest = [99, 98];
    let collation = || Message::Collation([3u8; 32], Collation { encoded: vec![7] });
    let mut bytes = collation().encode();
    bytes.extend_from_slice(&rest);
    assert_eq!(Message::unread(&bytes), Some((Payload::Collation, &[7, 99, 98][..])));
    assert_eq!(Message::decode(&bytes, Some(1)), (Some(collation()), &rest[..]));
    let statement = || Message::Statement([3u8; 32], SignedStatement { encoded: vec![7, 8] });
    let mut bytes = statement().encode();
    bytes.extend_from_slice(&rest);
    assert_eq!(Message::unread(&bytes), Some((Payload::Statement, &[7, 8, 99, 98][..])));
    assert_eq!(Message::decode(&bytes, Some(2)), (Some(statement()), &rest[..]));
}

#[test]
fn payload_that_cannot_be_read_is_none() {
    for tag in vec![0u8, 5] {
        let bytes = joined(&[&[tag], &[3u8; 32], &[1, 2]]);
        assert_eq!(Message::decode(&bytes, None).0, None);
        assert_eq!(Message::decode(&bytes, Some(3)).0, None);
        assert!(Message::decode(&bytes, Some(2)).0.is_some());
        assert_eq!(Message::unread(&bytes[..32]), None);
        assert_eq!(Message::decode(&bytes[..32], Some(0)).0, None);
    }
}

#[test]
fn truncated_messages_are_none() {
    let messages = vec![
        Message::SessionKey([4u8; 32]),
        Message::RequestBlockData(1, [5u8; 32]),
        Message::BlockData(1, None),
        Message::BlockData(1, Some(BlockData { bytes: vec![1, 2, 3] })),
        Message::CollatorRole(Role::Primary),
        Message::Statement([3u8; 32], SignedStatement { encoded: vec![] }),
        Message::Collation([3u8; 32], Collation { encoded: vec![] }),
    ];
    for message in messages {
        let bytes = message.encode();
        for length in 0..bytes.len() {
            assert_eq!(Message::decode(&bytes[..length], Some(0)).0, None);
        }
        assert_eq!(whole(&bytes, Some(0)), Some(message));
    }
}

#[test]
fn unknown_tags_are_none() {
    let rest = [0u8; 64];
    for tag in 6..=255u8 {
        assert_eq!(Message::decode(&joined(&[&[tag], &rest]), Some(1)).0, None);
    }
    assert_eq!(Message::decode(&[4, 2], None).0, None);
    assert_eq!(Message::decode(&joined(&[&[3], &[0; 8], &[2], &rest]), None).0, None);
}

#[test]
fn length_beyond_the_bytes_is_none() {
    let bytes = joined(&[&[3], &[0; 8], &[1], &[255, 255, 255, 255], &[1, 2, 3]]);
    assert_eq!(Message::decode(&bytes, None).0, None);
    assert_eq!(read_bytes(&[255, 255, 255, 255, 1]).0, None);
    assert_eq!(read_bytes(&[2, 0, 0]).0, None);
    assert_eq!(read_bytes(&[2, 0, 0, 0, 5, 6, 7]), (Some(vec![5, 6]), &[7][..]));
}

#[test]
fn different_messages_have_different_bytes() {
    let a = Message::RequestBlockData(1, [5u8; 32]);
    let b = Message::RequestBlockData(2, [5u8; 32]);
    let c = Message::SessionKey([5u8; 32]);
    assert_ne!(a.encode(), b.encode());
    assert_ne!(a.encode(), c.encode());
}

#[test]
fn small_messages_can_be_encoded() {
    assert!(Message::BlockData(1, Some(BlockData { bytes: vec![0; 1000] })).is_encodable());
    assert!(Message::BlockData(1, None).is_encodable());
    assert!(Message::Collation([1u8; 32], Collation { encoded: vec![0; 1000] }).is_encodable());
}

#[test]
fn a_message_is_sent_as_its_bytes() {
    let message = Message::SessionKey([4u8; 32]);
    assert_eq!(
        send_polkadot_message(&message),
        NetworkMessage::ChainSpecific(joined(&[&[1], &[4u8; 32]]))
    );
}
