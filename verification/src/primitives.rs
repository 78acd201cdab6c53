//! The plain values that the protocol works on.
use vstd::prelude::*;
use vstd::slice::slice_to_vec;

verus! {

/// A 256-bit hash: of a relay-chain block, a candidate receipt or block data.
pub type H256 = [u8; 32];

/// The account that a collator works under.
pub type AccountId = [u8; 32];

/// The key that a validator signs with during one session.
pub type SessionKey = [u8; 32];

/// The index of a parachain.
pub type ParaId = u32;

/// The index that the network layer gives to a connected peer.
pub type PeerId = usize;

/// The number under which a request for block data is answered.
pub type RequestId = u64;

/// Whether two 32-byte identifiers are the same.
pub fn same_id(a: &[u8; 32], b: &[u8; 32]) -> (r: bool)
    ensures
        r == (*a == *b),
{
    let mut i: usize = 0;
    while i < 32
        invariant
            i <= 32,
            forall|j: int| 0 <= j < i ==> a@[j] == b@[j],
        decreases 32 - i,
    {
        if a[i] != b[i] {
            assert(a@[i as int] != b@[i as int]);
            return false;
        }
        i = i + 1;
    }
    assert(a@ =~= b@);
    assert(*a =~= *b);
    true
}

/// Whether a collator is the one that a parachain relies on.
#[derive(Clone, Copy, Debug, PartialEq, Eq, Structural)]
pub enum Role {
    /// A primary collator sends its collations as they are made.
    Primary,
    /// A backup collator waits until it is made primary.
    Backup,
}

/// The block data of a parachain candidate.
#[derive(Debug, PartialEq, Eq)]
pub struct BlockData {
    pub bytes: Vec<u8>,
}

impl View for BlockData {
    type V = Seq<u8>;

    open spec fn view(&self) -> Seq<u8> {
        self.bytes@
    }
}

impl BlockData {
    /// A copy of the same bytes.
    pub fn duplicate(&self) -> (r: BlockData)
        ensures
            r@ == self@,
    {
        BlockData { bytes: slice_to_vec(self.bytes.as_slice()) }
    }
}

/// The extrinsic data of a parachain candidate.
#[derive(Debug, PartialEq, Eq)]
pub struct Extrinsic {
    pub bytes: Vec<u8>,
}

impl View for Extrinsic {
    type V = Seq<u8>;

    open spec fn view(&self) -> Seq<u8> {
        self.bytes@
    }
}

/// A signed statement on a candidate, in its encoded form.
#[derive(Debug, PartialEq, Eq)]
pub struct SignedStatement {
    pub encoded: Vec<u8>,
}

impl View for SignedStatement {
    type V = Seq<u8>;

    open spec fn view(&self) -> Seq<u8> {
        self.encoded@
    }
}

/// A collation (a candidate receipt with its block data), in its encoded form.
#[derive(Debug, PartialEq, Eq)]
pub struct Collation {
    pub encoded: Vec<u8>,
}

impl View for Collation {
    type V = Seq<u8>;

    open spec fn view(&self) -> Seq<u8> {
        self.encoded@
    }
}

/// What the protocol reads of a candidate receipt.
#[derive(Clone, Copy, Debug, PartialEq, Eq)]
pub struct CandidateReceipt {
    /// The hash of the receipt itself.
    pub hash: H256,
    /// The parachain that the candidate is for.
    pub parachain_index: ParaId,
    /// The collator that made the candidate.
    pub collator: AccountId,
    /// The hash of the candidate's block data.
    pub block_data_hash: H256,
    /// Whether the receipt carries its collator's signature.
    pub signature_valid: bool,
}

/// A statement of a validator on a candidate.
#[derive(Clone, Copy, Debug, PartialEq, Eq)]
pub enum Statement {
    /// The validator proposes this candidate.
    Candidate(CandidateReceipt),
    /// The candidate with this hash is valid.
    Valid(H256),
    /// The candidate with this hash is invalid.
    Invalid(H256),
    /// The data of the candidate with this hash is available.
    Available(H256),
}

/// The flags under which a node takes part in the network.
#[derive(Clone, Copy, Debug, PartialEq, Eq)]
pub struct Roles {
    /// All flags as the peer announced them.
    pub bits: u8,
    /// Whether the authority flag is among them.
    pub authority: bool,
}

/// What a peer announces when it connects.
#[derive(Debug, PartialEq, Eq)]
pub struct FullStatus {
    /// The flags that the peer announces.
    pub roles: Roles,
    /// The encoded status of the chain-specific protocol.
    pub chain_status: Vec<u8>,
}

/// A BFT consensus message, in its encoded form.
#[derive(Debug, PartialEq, Eq)]
pub struct BftMessage {
    pub encoded: Vec<u8>,
}

impl View for BftMessage {
    type V = Seq<u8>;

    open spec fn view(&self) -> Seq<u8> {
        self.encoded@
    }
}

/// What the network layer receives from a peer.
#[derive(Debug, PartialEq, Eq)]
pub enum NetworkMessage {
    /// A message of the consensus algorithm.
    BftMessage(BftMessage),
    /// An encoded message of the chain-specific protocol.
    ChainSpecific(Vec<u8>),
    /// A message of another kind.
    Other,
}

/// What the protocol reads of a block header.
#[derive(Clone, Copy, Debug, PartialEq, Eq)]
pub struct Header {
    /// The hash of the block before.
    pub parent_hash: H256,
}

/// What the collator pool asks for when it is maintained.
#[derive(Clone, Copy, Debug, PartialEq, Eq)]
pub enum CollatorAction {
    /// Disconnect the given collator.
    Disconnect(AccountId),
    /// Give the collator a new role.
    NewRole(AccountId, Role),
}

} // verus!
