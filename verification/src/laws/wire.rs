//! What holds of the wire format.
use vstd::prelude::*;

use crate::action::{ActionView, Misbehavior};
use crate::bytes::{le_bytes, le_value, lemma_le_bytes_len, lemma_le_limits,
    lemma_le_value_of_bytes};
use crate::knowledge::{block_data_of, EntryView};
use crate::message::{lemma_message_unambiguous, MessageView, Payload};
use crate::model::ProtocolView;
use crate::primitives::{AccountId, H256, ParaId, PeerId, RequestId, Role, SessionKey};
use crate::status::{lemma_status_unambiguous, Status};

verus! {

/// A message that has been encoded is read back as it was, whatever follows it: where it has a
/// payload, if the payload's reader takes just the payload.
pub proof fn law_message_round_trip(message: MessageView, rest: Seq<u8>, read_len: Option<usize>)
    requires
        message.encodable(),
        message.measured(read_len),
    ensures
        MessageView::received(message.encoding() + rest, read_len) == Some(message),
        (message.encoding() + rest).skip(message.encoding().len() as int) == rest,
{
    let bytes = message.encoding() + rest;
    assert(bytes.take(message.encoding().len() as int) =~= message.encoding());
    assert(bytes.skip(message.encoding().len() as int) =~= rest);
    assert(message.leads(bytes, read_len));
    let other = MessageView::received(bytes, read_len)->0;
    assert(other.leads(bytes, read_len));
    lemma_message_unambiguous(message, other, bytes);
}

/// What a payload's reader is given is the payload and what follows it.
pub proof fn law_payload_is_unread(message: MessageView, rest: Seq<u8>)
    ensures
        MessageView::unread(message.encoding() + rest) == match message {
            MessageView::Statement(_, statement) => Some((Payload::Statement, statement + rest)),
            MessageView::Collation(_, collation) => Some((Payload::Collation, collation + rest)),
            _ => None,
        },
{
    let bytes = message.encoding() + rest;
    assert(bytes[0] == message.tag());
    if message.has_payload() {
        assert(bytes.skip(33) =~= message.payload() + rest);
    }
}

/// Two messages with the same bytes are the same message.
pub proof fn law_message_encoding_injective(a: MessageView, b: MessageView)
    requires
        a.encodable(),
        b.encodable(),
        a.encoding() == b.encoding(),
    ensures
        a == b,
{
    assert(a.encoding().take(a.encoding().len() as int) =~= a.encoding());
    lemma_message_unambiguous(a, b, a.encoding());
}

/// What one node sends is what another deals with, whatever follows it.
pub proof fn law_sent_message_is_handled<S>(
    state: ProtocolView<S>,
    known: Map<H256, EntryView>,
    from: PeerId,
    message: MessageView,
    rest: Seq<u8>,
    read_len: Option<usize>,
)
    requires
        message.encodable(),
        message.measured(read_len),
    ensures
        state.chain_specific(known, from, message.encoding() + rest, read_len) == state.message(
            known,
            from,
            message.encoding() + rest,
            message,
        ),
{
    law_message_round_trip(message, rest, read_len);
}

/// Where the reader of collations takes a collation off the collation and what follows it, this
/// collation is what is opened, and what follows is not part of it.
pub proof fn law_collation_is_read_to_its_end<S>(
    state: ProtocolView<S>,
    known: Map<H256, EntryView>,
    from: PeerId,
    relay_parent: H256,
    collation: Seq<u8>,
    rest: Seq<u8>,
    reader: spec_fn(Seq<u8>) -> Option<usize>,
)
    requires
        collation.len() <= usize::MAX,
        reader(collation + rest) == Some(collation.len() as usize),
    ensures
        ({
            let raw = MessageView::Collation(relay_parent, collation).encoding() + rest;
            &&& MessageView::unread(raw) == Some((Payload::Collation, collation + rest))
            &&& state.chain_specific(known, from, raw, reader(collation + rest)) == state.just(
                ActionView::OpenCollation(from, relay_parent, collation),
            )
        }),
{
    let message = MessageView::Collation(relay_parent, collation);
    law_payload_is_unread(message, rest);
    law_message_round_trip(message, rest, reader(collation + rest));
}

/// Where the reader of statements takes a statement off the statement and what follows it, the
/// message is gossiped as it came.
pub proof fn law_statement_is_read_to_its_end<S>(
    state: ProtocolView<S>,
    known: Map<H256, EntryView>,
    from: PeerId,
    parent_hash: H256,
    statement: Seq<u8>,
    rest: Seq<u8>,
    reader: spec_fn(Seq<u8>) -> Option<usize>,
)
    requires
        statement.len() <= usize::MAX,
        reader(statement + rest) == Some(statement.len() as usize),
    ensures
        ({
            let raw = MessageView::Statement(parent_hash, statement).encoding() + rest;
            let read_len = reader(statement + rest);
            &&& MessageView::unread(raw) == Some((Payload::Statement, statement + rest))
            &&& MessageView::received(raw, read_len) == Some(
                MessageView::Statement(parent_hash, statement),
            )
            &&& state.chain_specific(known, from, raw, read_len) == state.just(
                ActionView::GossipChainSpecific(from, raw, parent_hash),
            )
        }),
{
    let message = MessageView::Statement(parent_hash, statement);
    law_payload_is_unread(message, rest);
    law_message_round_trip(message, rest, reader(statement + rest));
}

/// A payload that its reader cannot read makes the message no message, and counts against its
/// sender.
pub proof fn law_unreadable_payload_is_invalid<S>(
    state: ProtocolView<S>,
    known: Map<H256, EntryView>,
    from: PeerId,
    raw: Seq<u8>,
)
    requires
        MessageView::unread(raw) is Some,
    ensures
        MessageView::received(raw, None) is None,
        state.chain_specific(known, from, raw, None) == state.just(
            ActionView::DisablePeer(from, Misbehavior::InvalidMessage),
        ),
{
    assert forall|m: MessageView| !#[trigger] m.leads(raw, None) by {
        if m.leads(raw, None) {
            assert(m.encoding()[0] == m.tag());
            assert(raw[0] == m.tag());
        }
    }
}

/// A request for block data and its response go through: the node that is asked sends back the
/// data that it has, and the node that asks gets this data under the number that it gave.
pub proof fn law_request_is_served<S, T>(
    asked: ProtocolView<S>,
    known: Map<H256, EntryView>,
    asker: PeerId,
    asking: ProtocolView<T>,
    known_there: Map<H256, EntryView>,
    peer: PeerId,
    id: RequestId,
    candidate: H256,
)
    requires
        asked.live_consensus is Some,
        MessageView::BlockData(id, block_data_of(known, candidate)).encodable(),
    ensures
        ({
            let request = MessageView::RequestBlockData(id, candidate);
            let response = MessageView::BlockData(id, block_data_of(known, candidate));
            &&& asked.chain_specific(known, asker, request.encoding(), None) == asked.just(
                ActionView::SendMessage(asker, response),
            )
            &&& asking.chain_specific(known_there, peer, response.encoding(), None) == match
                block_data_of(known, candidate) {
                Some(data) => asking.just(ActionView::HashBlockData(peer, id, data)),
                None => asking.block_data(known_there, peer, id, None),
            }
        }),
{
    let request = MessageView::RequestBlockData(id, candidate);
    let response = MessageView::BlockData(id, block_data_of(known, candidate));
    law_message_round_trip(request, seq![], None);
    law_message_round_trip(response, seq![], None);
    assert(request.encoding() + seq![] =~= request.encoding());
    assert(response.encoding() + seq![] =~= response.encoding());
}

/// A status that has been encoded is read back as it was, whatever follows it.
pub proof fn law_status_round_trip(status: Status, rest: Seq<u8>)
    ensures
        Status::announced(status.encoding() + rest) == Some(status),
        (status.encoding() + rest).skip(status.encoding().len() as int) == rest,
{
    let bytes = status.encoding() + rest;
    assert(bytes.take(status.encoding().len() as int) =~= status.encoding());
    assert(bytes.skip(status.encoding().len() as int) =~= rest);
    assert(status.leads(bytes));
    lemma_status_unambiguous(status, Status::announced(bytes)->0, bytes);
}

/// Bytes spell a number with the lowest byte first.
pub proof fn law_numbers_are_spelled(bytes: Seq<u8>)
    ensures
        bytes.len() == 4 ==> le_value(bytes) == bytes[0] + 0x100 * bytes[1] + 0x1_0000 * bytes[2]
            + 0x100_0000 * bytes[3],
        bytes.len() == 8 ==> le_value(bytes) == bytes[0] + 0x100 * bytes[1] + 0x1_0000 * bytes[2]
            + 0x100_0000 * bytes[3] + 0x1_0000_0000 * bytes[4] + 0x100_0000_0000 * bytes[5]
            + 0x1_0000_0000_0000 * bytes[6] + 0x100_0000_0000_0000 * bytes[7],
{
    reveal_with_fuel(le_value, 9);
}

/// A status is a one, the account and the number of the parachain in four bytes, or just a zero.
pub proof fn law_status_bytes(account: AccountId, para: ParaId)
    ensures
        ({
            let bytes = Status { collating_for: Some((account, para)) }.encoding();
            &&& bytes.len() == 37
            &&& bytes[0] == 1
            &&& bytes.subrange(1, 33) == account@
            &&& le_value(bytes.subrange(33, 37)) == para
        }),
        ({
            let bytes = Status { collating_for: None }.encoding();
            &&& bytes.len() == 1
            &&& bytes[0] == 0
        }),
{
    let bytes = Status { collating_for: Some((account, para)) }.encoding();
    lemma_le_bytes_len(para as nat, 4);
    lemma_le_limits();
    lemma_le_value_of_bytes(para as nat, 4);
    assert(bytes.subrange(1, 33) =~= account@);
    assert(bytes.subrange(33, 37) =~= le_bytes(para as nat, 4));
}

/// Messages with a payload are a zero or a five, the hash and the payload; a session key is a one
/// and the key; and a role is a four with a zero for primary or a one for backup.
pub proof fn law_plain_message_bytes(hash: H256, payload: Seq<u8>, key: SessionKey)
    ensures
        ({
            let bytes = MessageView::Statement(hash, payload).encoding();
            &&& bytes.len() == 33 + payload.len()
            &&& bytes[0] == 0
            &&& bytes.subrange(1, 33) == hash@
            &&& bytes.skip(33) == payload
        }),
        ({
            let bytes = MessageView::Collation(hash, payload).encoding();
            &&& bytes.len() == 33 + payload.len()
            &&& bytes[0] == 5
            &&& bytes.subrange(1, 33) == hash@
            &&& bytes.skip(33) == payload
        }),
        ({
            let bytes = MessageView::SessionKey(key).encoding();
            &&& bytes.len() == 33
            &&& bytes[0] == 1
            &&& bytes.skip(1) == key@
        }),
        MessageView::CollatorRole(Role::Primary).encoding() == seq![4u8, 0u8],
        MessageView::CollatorRole(Role::Backup).encoding() == seq![4u8, 1u8],
{
    let bytes = MessageView::Statement(hash, payload).encoding();
    assert(bytes.subrange(1, 33) =~= hash@);
    assert(bytes.skip(33) =~= payload);
    let bytes = MessageView::Collation(hash, payload).encoding();
    assert(bytes.subrange(1, 33) =~= hash@);
    assert(bytes.skip(33) =~= payload);
    assert(MessageView::SessionKey(key).encoding().skip(1) =~= key@);
}

/// A request is a two, its number in eight bytes and the candidate; a response is a three, the
/// number and a zero, or the number, a one, the length of the data in four bytes and the data.
pub proof fn law_numbered_message_bytes(id: RequestId, hash: H256, data: Seq<u8>)
    requires
        data.len() <= u32::MAX,
    ensures
        ({
            let bytes = MessageView::RequestBlockData(id, hash).encoding();
            &&& bytes.len() == 41
            &&& bytes[0] == 2
            &&& le_value(bytes.subrange(1, 9)) == id
            &&& bytes.skip(9) == hash@
        }),
        ({
            let bytes = MessageView::BlockData(id, None).encoding();
            &&& bytes.len() == 10
            &&& bytes[0] == 3
            &&& le_value(bytes.subrange(1, 9)) == id
            &&& bytes[9] == 0
        }),
        ({
            let bytes = MessageView::BlockData(id, Some(data)).encoding();
            &&& bytes.len() == 14 + data.len()
            &&& bytes[0] == 3
            &&& le_value(bytes.subrange(1, 9)) == id
            &&& bytes[9] == 1
            &&& le_value(bytes.subrange(10, 14)) == data.len()
            &&& bytes.skip(14) == data
        }),
{
    lemma_le_limits();
    lemma_le_bytes_len(id as nat, 8);
    lemma_le_value_of_bytes(id as nat, 8);
    lemma_le_bytes_len(data.len(), 4);
    lemma_le_value_of_bytes(data.len(), 4);
    let bytes = MessageView::RequestBlockData(id, hash).encoding();
    assert(bytes.subrange(1, 9) =~= le_bytes(id as nat, 8));
    assert(bytes.skip(9) =~= hash@);
    let bytes = MessageView::BlockData(id, None).encoding();
    assert(bytes.subrange(1, 9) =~= le_bytes(id as nat, 8));
    let bytes = MessageView::BlockData(id, Some(data)).encoding();
    assert(bytes.subrange(1, 9) =~= le_bytes(id as nat, 8));
    assert(bytes.subrange(10, 14) =~= le_bytes(data.len(), 4));
    assert(bytes.skip(14) =~= data);
}

/// A message that is read is there: the bytes begin with what it is written as, and its payload is
/// as long as its reader says.
pub proof fn law_read_message_is_there(bytes: Seq<u8>, read_len: Option<usize>)
    ensures
        MessageView::received(bytes, read_len) matches Some(message) ==> {
            &&& message.encodable()
            &&& message.encoding().is_prefix_of(bytes)
            &&& message matches MessageView::Statement(_, statement) ==> read_len is Some
                && read_len->0 == statement.len()
            &&& message matches MessageView::Collation(_, collation) ==> read_len is Some
                && read_len->0 == collation.len()
        },
{
    if let Some(message) = MessageView::received(bytes, read_len) {
        assert(message.leads(bytes, read_len));
    }
}

/// A status that is read is there: the bytes begin with what it is written as.
pub proof fn law_read_status_is_there(bytes: Seq<u8>)
    ensures
        Status::announced(bytes) matches Some(status) ==> status.encoding().is_prefix_of(bytes),
{
    if let Some(status) = Status::announced(bytes) {
        assert(status.leads(bytes));
    }
}

/// Every message can be encoded but one with block data whose length four bytes cannot hold, and
/// the reader's word matters just for statements and collations.
pub proof fn law_what_can_be_encoded(
    message: MessageView,
    id: RequestId,
    data: Seq<u8>,
    hash: H256,
    read_len: Option<usize>,
)
    ensures
        MessageView::BlockData(id, Some(data)).encodable() <==> data.len() <= u32::MAX,
        !(message is BlockData) ==> message.encodable(),
        MessageView::BlockData(id, None).encodable(),
        MessageView::Statement(hash, data).measured(read_len) <==> read_len is Some
            && read_len->0 == data.len(),
        MessageView::Collation(hash, data).measured(read_len) <==> read_len is Some
            && read_len->0 == data.len(),
        !(message is Statement) && !(message is Collation) ==> message.measured(read_len),
{
}

/// A reader is called for a statement or a collation behind a whole hash, and gets all that is
/// behind it.
pub proof fn law_what_is_unread(bytes: Seq<u8>)
    ensures
        bytes.len() >= 33 && bytes[0] == 0 ==> MessageView::unread(bytes) == Some(
            (Payload::Statement, bytes.skip(33)),
        ),
        bytes.len() >= 33 && bytes[0] == 5 ==> MessageView::unread(bytes) == Some(
            (Payload::Collation, bytes.skip(33)),
        ),
        bytes.len() < 33 || (bytes[0] != 0 && bytes[0] != 5) ==> MessageView::unread(bytes) is None,
{
}

} // verus!
