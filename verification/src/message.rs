//! The messages that nodes exchange.
use vstd::prelude::*;
use vstd::slice::{slice_subrange, slice_to_vec};

use crate::bytes::{le_bytes, le_value, lemma_le_bytes_len, lemma_le_bytes_of_value,
    lemma_le_limits, lemma_le_value_of_bytes};
use crate::codec::{bytes_encoding, push_byte, push_bytes, push_id, push_u64, read_byte, read_bytes,
    read_id, read_u64};
use crate::primitives::{BlockData, Collation, H256, RequestId, Role, SessionKey, SignedStatement};

verus! {

/// Polkadot-specific messages.
#[derive(Debug, PartialEq, Eq)]
pub enum Message {
    /// Signed statement and localized parent hash.
    Statement(H256, SignedStatement),
    /// As a validator, tell the peer your current session key.
    SessionKey(SessionKey),
    /// Requesting parachain block data by candidate hash.
    RequestBlockData(RequestId, H256),
    /// Provide block data by candidate hash or nothing if unknown.
    BlockData(RequestId, Option<BlockData>),
    /// Tell a collator their role.
    CollatorRole(Role),
    /// A collation provided by a peer. Relay parent and collation.
    Collation(H256, Collation),
}

/// What a message says, byte strings taken as sequences.
pub enum MessageView {
    Statement(H256, Seq<u8>),
    SessionKey(SessionKey),
    RequestBlockData(RequestId, H256),
    BlockData(RequestId, Option<Seq<u8>>),
    CollatorRole(Role),
    Collation(H256, Seq<u8>),
}

/// The part of a message that has an encoding of its own, defined by the chain. Where it ends is
/// for its reader to say.
#[derive(Clone, Copy, Debug, PartialEq, Eq, Structural)]
pub enum Payload {
    Statement,
    Collation,
}

/// What optional block data holds.
pub open spec fn optional_bytes(data: Option<BlockData>) -> Option<Seq<u8>> {
    match data {
        Some(data) => Some(data@),
        None => None,
    }
}

impl View for Message {
    type V = MessageView;

    open spec fn view(&self) -> MessageView {
        match *self {
            Message::Statement(hash, statement) => MessageView::Statement(hash, statement@),
            Message::SessionKey(key) => MessageView::SessionKey(key),
            Message::RequestBlockData(id, hash) => MessageView::RequestBlockData(id, hash),
            Message::BlockData(id, data) => MessageView::BlockData(id, optional_bytes(data)),
            Message::CollatorRole(role) => MessageView::CollatorRole(role),
            Message::Collation(hash, collation) => MessageView::Collation(hash, collation@),
        }
    }
}

/// The byte that stands for a role.
pub open spec fn role_byte(role: Role) -> u8 {
    match role {
        Role::Primary => 0,
        Role::Backup => 1,
    }
}

/// The encoding of optional block data: a zero, or a one and the byte string.
pub open spec fn optional_encoding(data: Option<Seq<u8>>) -> Seq<u8> {
    match data {
        Some(data) => seq![1u8] + bytes_encoding(data),
        None => seq![0u8],
    }
}

impl MessageView {
    /// The byte that tells the kinds of message apart.
    pub open spec fn tag(self) -> u8 {
        match self {
            MessageView::Statement(..) => 0,
            MessageView::SessionKey(..) => 1,
            MessageView::RequestBlockData(..) => 2,
            MessageView::BlockData(..) => 3,
            MessageView::CollatorRole(..) => 4,
            MessageView::Collation(..) => 5,
        }
    }

    /// The fields of a message, one after the other.
    pub open spec fn fields(self) -> Seq<u8> {
        match self {
            MessageView::Statement(hash, statement) => hash@ + statement,
            MessageView::SessionKey(key) => key@,
            MessageView::RequestBlockData(id, hash) => le_bytes(id as nat, 8) + hash@,
            MessageView::BlockData(id, data) => le_bytes(id as nat, 8) + optional_encoding(data),
            MessageView::CollatorRole(role) => seq![role_byte(role)],
            MessageView::Collation(hash, collation) => hash@ + collation,
        }
    }

    /// The bytes of a message: its tag and its fields.
    pub open spec fn encoding(self) -> Seq<u8> {
        seq![self.tag()] + self.fields()
    }

    /// The message can be encoded: a length of block data has four bytes to stand in.
    pub open spec fn encodable(self) -> bool {
        match self {
            MessageView::BlockData(_, Some(data)) => data.len() <= u32::MAX,
            _ => true,
        }
    }

    /// The message ends in a statement or a collation.
    pub open spec fn has_payload(self) -> bool {
        self is Statement || self is Collation
    }

    /// The bytes of the statement or the collation that the message ends in.
    pub open spec fn payload(self) -> Seq<u8> {
        match self {
            MessageView::Statement(_, statement) => statement,
            MessageView::Collation(_, collation) => collation,
            _ => seq![],
        }
    }

    /// The reader of the payload takes as many bytes as the payload has. Of a message without a
    /// payload nothing is asked.
    pub open spec fn measured(self, read_len: Option<usize>) -> bool {
        self.has_payload() ==> read_len is Some && read_len->0 == self.payload().len()
    }

    /// The bytes begin with this message, if the reader of the payload takes so many bytes.
    pub open spec fn leads(self, bytes: Seq<u8>, read_len: Option<usize>) -> bool {
        self.encodable() && self.measured(read_len) && self.encoding().is_prefix_of(bytes)
    }

    /// The message that the bytes begin with, if there is one. `read_len` is how many bytes the
    /// reader of the payload takes off the bytes behind the hash, or nothing if it can read none.
    pub open spec fn received(bytes: Seq<u8>, read_len: Option<usize>) -> Option<MessageView> {
        if exists|m: MessageView| #[trigger] m.leads(bytes, read_len) {
            Some(choose|m: MessageView| #[trigger] m.leads(bytes, read_len))
        } else {
            None
        }
    }

    /// The payload that the bytes of a message hold, with the bytes behind the hash, which its
    /// reader has still to read.
    pub open spec fn unread(bytes: Seq<u8>) -> Option<(Payload, Seq<u8>)> {
        if bytes.len() < 33 {
            None
        } else if bytes[0] == 0 {
            Some((Payload::Statement, bytes.skip(33)))
        } else if bytes[0] == 5 {
            Some((Payload::Collation, bytes.skip(33)))
        } else {
            None
        }
    }
}

/// The parts of a message that the bytes begin with.
proof fn lemma_leads_shape(m: MessageView, bytes: Seq<u8>)
    requires
        m.encodable(),
        m.encoding().is_prefix_of(bytes),
    ensures
        m.encoding().len() <= bytes.len(),
        bytes.take(m.encoding().len() as int) == m.encoding(),
        bytes.len() >= 1,
        bytes[0] == m.tag(),
        match m {
            MessageView::Statement(hash, statement) => bytes.len() >= 33 + statement.len()
                && bytes.subrange(1, 33) == hash@ && bytes.subrange(33, 33 + statement.len() as int)
                == statement,
            MessageView::SessionKey(key) => bytes.len() >= 33 && bytes.subrange(1, 33) == key@,
            MessageView::RequestBlockData(id, hash) => bytes.len() >= 41 && bytes.subrange(1, 9)
                == le_bytes(id as nat, 8) && bytes.subrange(9, 41) == hash@,
            MessageView::BlockData(id, None) => bytes.len() >= 10 && bytes.subrange(1, 9)
                == le_bytes(id as nat, 8) && bytes[9] == 0,
            MessageView::BlockData(id, Some(data)) => bytes.len() >= 14 + data.len()
                && bytes.subrange(1, 9) == le_bytes(id as nat, 8) && bytes[9] == 1
                && bytes.subrange(10, 14) == le_bytes(data.len(), 4) && bytes.subrange(
                14,
                14 + data.len() as int,
            ) == data,
            MessageView::CollatorRole(role) => bytes.len() >= 2 && bytes[1] == role_byte(role),
            MessageView::Collation(hash, collation) => bytes.len() >= 33 + collation.len()
                && bytes.subrange(1, 33) == hash@ && bytes.subrange(33, 33 + collation.len() as int)
                == collation,
        },
{
    let e = m.encoding();
    assert(bytes.take(e.len() as int) =~= e);
    assert(e[0] == bytes[0]);
    match m {
        MessageView::Statement(hash, statement) => {
            let n = 33 + statement.len() as int;
            assert(e.subrange(1, 33) =~= hash@);
            assert(e.subrange(33, n) =~= statement);
            assert(e.subrange(1, 33) =~= bytes.subrange(1, 33));
            assert(e.subrange(33, n) =~= bytes.subrange(33, n));
        },
        MessageView::SessionKey(key) => {
            assert(e.subrange(1, 33) =~= key@);
            assert(e.subrange(1, 33) =~= bytes.subrange(1, 33));
        },
        MessageView::RequestBlockData(id, hash) => {
            lemma_le_bytes_len(id as nat, 8);
            assert(e.subrange(1, 9) =~= le_bytes(id as nat, 8));
            assert(e.subrange(9, 41) =~= hash@);
            assert(e.subrange(1, 9) =~= bytes.subrange(1, 9));
            assert(e.subrange(9, 41) =~= bytes.subrange(9, 41));
        },
        MessageView::BlockData(id, data) => {
            lemma_le_bytes_len(id as nat, 8);
            assert(e.subrange(1, 9) =~= le_bytes(id as nat, 8));
            assert(e.subrange(1, 9) =~= bytes.subrange(1, 9));
            assert(e[9] == bytes[9]);
            if let Some(data) = data {
                lemma_le_bytes_len(data.len(), 4);
                let n = 14 + data.len() as int;
                assert(e.subrange(10, 14) =~= le_bytes(data.len(), 4));
                assert(e.subrange(14, n) =~= data);
                assert(e.subrange(10, 14) =~= bytes.subrange(10, 14));
                assert(e.subrange(14, n) =~= bytes.subrange(14, n));
            }
        },
        MessageView::CollatorRole(role) => {
            assert(e[1] == bytes[1]);
        },
        MessageView::Collation(hash, collation) => {
            let n = 33 + collation.len() as int;
            assert(e.subrange(1, 33) =~= hash@);
            assert(e.subrange(33, n) =~= collation);
            assert(e.subrange(1, 33) =~= bytes.subrange(1, 33));
            assert(e.subrange(33, n) =~= bytes.subrange(33, n));
        },
    }
}

/// No bytes begin with two different messages whose payloads are equally long.
pub proof fn lemma_message_unambiguous(a: MessageView, b: MessageView, bytes: Seq<u8>)
    requires
        a.encodable(),
        b.encodable(),
        a.encoding().is_prefix_of(bytes),
        b.encoding().is_prefix_of(bytes),
        a.has_payload() && b.has_payload() ==> a.payload().len() == b.payload().len(),
    ensures
        a == b,
{
    lemma_leads_shape(a, bytes);
    lemma_leads_shape(b, bytes);
    lemma_le_limits();
    match (a, b) {
        (MessageView::Statement(h, _), MessageView::Statement(k, _)) => {
            assert(h =~= k);
        },
        (MessageView::SessionKey(h), MessageView::SessionKey(k)) => {
            assert(h =~= k);
        },
        (MessageView::RequestBlockData(i, h), MessageView::RequestBlockData(j, k)) => {
            lemma_le_value_of_bytes(i as nat, 8);
            lemma_le_value_of_bytes(j as nat, 8);
            assert(h =~= k);
        },
        (MessageView::BlockData(i, c), MessageView::BlockData(j, d)) => {
            lemma_le_value_of_bytes(i as nat, 8);
            lemma_le_value_of_bytes(j as nat, 8);
            if let (Some(c), Some(d)) = (c, d) {
                lemma_le_value_of_bytes(c.len(), 4);
                lemma_le_value_of_bytes(d.len(), 4);
            }
        },
        (MessageView::Collation(h, _), MessageView::Collation(k, _)) => {
            assert(h =~= k);
        },
        _ => {},
    }
}

/// Appends bytes to `dest`.
fn append_bytes(dest: &mut Vec<u8>, bytes: &Vec<u8>)
    ensures
        final(dest)@ == old(dest)@ + bytes@,
{
    let mut i: usize = 0;
    while i < bytes.len()
        invariant
            i <= bytes.len(),
            dest@ == old(dest)@ + bytes@.take(i as int),
        decreases bytes.len() - i,
    {
        dest.push(bytes[i]);
        i = i + 1;
        assert(bytes@.take(i as int) =~= bytes@.take(i - 1).push(bytes@[i - 1]));
        assert(dest@ =~= old(dest)@ + bytes@.take(i as int));
    }
    assert(bytes@.take(i as int) =~= bytes@);
}

/// Reads optional block data off the front of `input`. Returns what was read and what is left.
fn read_optional(input: &[u8]) -> (r: (Option<Option<BlockData>>, &[u8]))
    ensures
        match r.0 {
            Some(data) => optional_encoding(optional_bytes(data)).is_prefix_of(input@) && r.1@
                == input@.skip(optional_encoding(optional_bytes(data)).len() as int) && (
            data matches Some(d) ==> d@.len() <= u32::MAX),
            None => input@.len() == 0 || input@[0] > 1 || (input@[0] == 1 && (input@.len() < 5
                || le_value(input@.subrange(1, 5)) > input@.len() - 5)),
        },
{
    match read_byte(input) {
        (Some(0), rest) => {
            assert(seq![0u8] =~= input@.take(1));
            (Some(None), rest)
        },
        (Some(1), rest) => match read_bytes(rest) {
            (Some(bytes), left) => {
                proof {
                    let length = rest@.take(4);
                    lemma_le_bytes_of_value(length);
                    assert(length.len() == 4);
                    reveal_with_fuel(le_value, 5);
                    let n = 5 + bytes@.len() as int;
                    assert(optional_encoding(Some(bytes@)) =~= input@.take(n));
                    assert(left@ =~= input@.skip(n));
                }
                (Some(Some(BlockData { bytes })), left)
            },
            (None, left) => {
                assert(rest@.len() >= 4 ==> rest@.take(4) =~= input@.subrange(1, 5));
                (None, left)
            },
        },
        (_, rest) => (None, rest),
    }
}

/// Takes a hash and a payload off the front of `input`: the payload is as long as its reader says.
/// Returns what was taken and what is left.
fn read_payload(input: &[u8], read_len: Option<usize>) -> (r: (Option<(H256, Vec<u8>)>, &[u8]))
    ensures
        match r.0 {
            Some((hash, payload)) => input@.len() >= 32 + payload@.len() && read_len is Some
                && read_len->0 == payload@.len() && hash@ == input@.take(32) && payload@
                == input@.subrange(32, 32 + payload@.len() as int) && r.1@ == input@.skip(
                32 + payload@.len() as int,
            ),
            None => input@.len() < 32 || read_len is None || read_len->0 > input@.len() - 32,
        },
{
    match (read_id(input), read_len) {
        ((Some(hash), rest), Some(length)) => {
            if length > rest.len() {
                return (None, rest);
            }
            let payload = slice_to_vec(slice_subrange(rest, 0, length));
            let left = slice_subrange(rest, length, rest.len());
            proof {
                assert(payload@ =~= input@.subrange(32, 32 + length as int));
                assert(left@ =~= input@.skip(32 + length as int));
            }
            (Some((hash, payload)), left)
        },
        ((_, rest), _) => (None, rest),
    }
}

impl Message {
    /// Whether the message can be encoded.
    pub fn is_encodable(&self) -> (r: bool)
        ensures
            r == self@.encodable(),
    {
        match self {
            Message::BlockData(_, Some(data)) => data.bytes.len() as u64 <= u32::MAX as u64,
            _ => true,
        }
    }

    /// Appends the encoded message to `dest`.
    pub fn encode_to(&self, dest: &mut Vec<u8>)
        requires
            self@.encodable(),
        ensures
            final(dest)@ == old(dest)@ + self@.encoding(),
    {
        match self {
            Message::Statement(hash, statement) => {
                push_byte(dest, 0);
                push_id(dest, hash);
                append_bytes(dest, &statement.encoded);
            },
            Message::SessionKey(key) => {
                push_byte(dest, 1);
                push_id(dest, key);
            },
            Message::RequestBlockData(id, hash) => {
                push_byte(dest, 2);
                push_u64(dest, *id);
                push_id(dest, hash);
            },
            Message::BlockData(id, data) => {
                push_byte(dest, 3);
                push_u64(dest, *id);
                match data {
                    Some(data) => {
                        push_byte(dest, 1);
                        push_bytes(dest, &data.bytes);
                    },
                    None => {
                        push_byte(dest, 0);
                    },
                }
            },
            Message::CollatorRole(role) => {
                push_byte(dest, 4);
                match role {
                    Role::Primary => push_byte(dest, 0),
                    Role::Backup => push_byte(dest, 1),
                }
            },
            Message::Collation(hash, collation) => {
                push_byte(dest, 5);
                push_id(dest, hash);
                append_bytes(dest, &collation.encoded);
            },
        }
        assert(dest@ =~= old(dest)@ + self@.encoding());
    }

    /// The encoded message.
    pub fn encode(&self) -> (r: Vec<u8>)
        requires
            self@.encodable(),
        ensures
            r@ == self@.encoding(),
    {
        let mut dest: Vec<u8> = Vec::new();
        self.encode_to(&mut dest);
        assert(dest@ =~= self@.encoding());
        dest
    }

    /// The payload that the bytes of a message hold, if it is one with a payload, and the bytes
    /// that its reader has to read.
    pub fn unread(input: &[u8]) -> (r: Option<(Payload, &[u8])>)
        ensures
            match r {
                Some((payload, rest)) => MessageView::unread(input@) == Some((payload, rest@)),
                None => MessageView::unread(input@) is None,
            },
    {
        if input.len() < 33 {
            return None;
        }
        let rest = slice_subrange(input, 33, input.len());
        assert(rest@ =~= input@.skip(33));
        match input[0] {
            0 => Some((Payload::Statement, rest)),
            5 => Some((Payload::Collation, rest)),
            _ => None,
        }
    }

    /// Reads a message off the front of `input`, if one is there. Returns what was read and what
    /// is left; nothing is said of what is left after a failure.
    ///
    /// `read_len` is how many bytes the reader of a statement or a collation takes off the bytes
    /// behind the hash (those that `unread` gives), or nothing if it can read none. For a message
    /// without a payload it does not matter.
    pub fn decode(input: &[u8], read_len: Option<usize>) -> (r: (Option<Message>, &[u8]))
        ensures
            match r.0 {
                Some(message) => message@.leads(input@, read_len) && MessageView::received(
                    input@,
                    read_len,
                ) == Some(message@) && r.1@ == input@.skip(message@.encoding().len() as int),
                None => MessageView::received(input@, read_len) is None,
            },
    {
        let r = Self::decode_fields(input, read_len);
        proof {
            if r.0 is Some {
                let other = MessageView::received(input@, read_len)->0;
                assert(r.0->0@.leads(input@, read_len));
                assert(other.leads(input@, read_len));
                lemma_message_unambiguous(r.0->0@, other, input@);
            } else {
                assert forall|m: MessageView| !#[trigger] m.leads(input@, read_len) by {
                    if m.leads(input@, read_len) {
                        Self::lemma_not_malformed(m, input@, read_len);
                    }
                }
            }
        }
        r
    }

    /// The bytes begin with no message.
    spec fn malformed(s: Seq<u8>, read_len: Option<usize>) -> bool {
        ||| s.len() == 0
        ||| s[0] > 5
        ||| (s[0] == 0 || s[0] == 5) && (s.len() < 33 || read_len is None || read_len->0 > s.len()
            - 33)
        ||| s[0] == 1 && s.len() < 33
        ||| s[0] == 2 && s.len() < 41
        ||| s[0] == 3 && (s.len() < 10 || s[9] > 1 || (s[9] == 1 && (s.len() < 14 || le_value(
            s.subrange(10, 14),
        ) > s.len() - 14)))
        ||| s[0] == 4 && (s.len() < 2 || s[1] > 1)
    }

    proof fn lemma_not_malformed(m: MessageView, s: Seq<u8>, read_len: Option<usize>)
        requires
            m.leads(s, read_len),
        ensures
            !Self::malformed(s, read_len),
    {
        lemma_leads_shape(m, s);
        if let MessageView::BlockData(_, Some(data)) = m {
            lemma_le_limits();
            lemma_le_value_of_bytes(data.len(), 4);
        }
    }

    fn decode_fields(input: &[u8], read_len: Option<usize>) -> (r: (Option<Message>, &[u8]))
        ensures
            match r.0 {
                Some(message) => message@.leads(input@, read_len) && r.1@ == input@.skip(
                    message@.encoding().len() as int,
                ),
                None => Self::malformed(input@, read_len),
            },
    {
        let ghost s = input@;
        match read_byte(input) {
            (Some(0), rest) => match read_payload(rest, read_len) {
                (Some((hash, encoded)), left) => {
                    let message = Message::Statement(hash, SignedStatement { encoded });
                    proof {
                        let n = 33 + encoded@.len() as int;
                        assert(message@.encoding() =~= s.take(n));
                        assert(left@ =~= s.skip(n));
                    }
                    (Some(message), left)
                },
                (None, left) => (None, left),
            },
            (Some(1), rest) => match read_id(rest) {
                (Some(key), left) => {
                    let message = Message::SessionKey(key);
                    assert(message@.encoding() =~= s.take(33));
                    assert(left@ =~= s.skip(33));
                    (Some(message), left)
                },
                (None, left) => (None, left),
            },
            (Some(2), rest) => match read_u64(rest) {
                (Some(id), rest) => match read_id(rest) {
                    (Some(hash), left) => {
                        let message = Message::RequestBlockData(id, hash);
                        proof {
                            lemma_le_bytes_of_value(s.skip(1).take(8));
                            assert(message@.encoding() =~= s.take(41));
                            assert(left@ =~= s.skip(41));
                        }
                        (Some(message), left)
                    },
                    (None, left) => (None, left),
                },
                (None, left) => (None, left),
            },
            (Some(3), rest) => match read_u64(rest) {
                (Some(id), rest) => match read_optional(rest) {
                    (Some(data), left) => {
                        let message = Message::BlockData(id, data);
                        proof {
                            lemma_le_bytes_of_value(s.skip(1).take(8));
                            let n = optional_encoding(optional_bytes(data)).len() as int;
                            assert(optional_encoding(optional_bytes(data)) =~= rest@.take(n));
                            assert(message@.encoding() =~= s.take(9 + n));
                            assert(left@ =~= s.skip(9 + n));
                        }
                        (Some(message), left)
                    },
                    (None, left) => {
                        assert(rest@.len() >= 5 ==> rest@.subrange(1, 5) =~= s.subrange(10, 14));
                        (None, left)
                    },
                },
                (None, left) => (None, left),
            },
            (Some(4), rest) => {
                let (byte, left) = read_byte(rest);
                let role = match byte {
                    Some(0) => Role::Primary,
                    Some(1) => Role::Backup,
                    _ => {
                        return (None, left);
                    },
                };
                let message = Message::CollatorRole(role);
                assert(message@.encoding() =~= s.take(2));
                assert(left@ =~= s.skip(2));
                (Some(message), left)
            },
            (Some(5), rest) => match read_payload(rest, read_len) {
                (Some((hash, encoded)), left) => {
                    let message = Message::Collation(hash, Collation { encoded });
                    proof {
                        let n = 33 + encoded@.len() as int;
                        assert(message@.encoding() =~= s.take(n));
                        assert(left@ =~= s.skip(n));
                    }
                    (Some(message), left)
                },
                (None, left) => (None, left),
            },
            (_, rest) => (None, rest),
        }
    }
}

} // verus!
