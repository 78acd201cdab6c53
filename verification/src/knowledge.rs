//! What is known of the candidates of a consensus session.
use vstd::prelude::*;

use crate::key_table::KeyTable;
use crate::message::optional_bytes;
use crate::primitives::{BlockData, Extrinsic, H256, SessionKey, Statement};

verus! {

/// What is known of one candidate.
pub struct KnowledgeEntry {
    /// The validators that have the block data, in the order in which they said so.
    pub knows_block_data: Vec<SessionKey>,
    /// The validators that have the extrinsic data, in the order in which they said so.
    pub knows_extrinsic: Vec<SessionKey>,
    /// The block data, if it is here.
    pub block_data: Option<BlockData>,
    /// The extrinsic data, if it is here.
    pub extrinsic: Option<Extrinsic>,
}

/// What an entry says, vectors taken as sequences.
pub struct EntryView {
    pub knows_block_data: Seq<SessionKey>,
    pub knows_extrinsic: Seq<SessionKey>,
    pub block_data: Option<Seq<u8>>,
    pub extrinsic: Option<Seq<u8>>,
}

impl View for KnowledgeEntry {
    type V = EntryView;

    open spec fn view(&self) -> EntryView {
        EntryView {
            knows_block_data: self.knows_block_data@,
            knows_extrinsic: self.knows_extrinsic@,
            block_data: optional_bytes(self.block_data),
            extrinsic: match self.extrinsic {
                Some(extrinsic) => Some(extrinsic@),
                None => None,
            },
        }
    }
}

impl EntryView {
    /// Nothing is known.
    pub open spec fn blank() -> EntryView {
        EntryView {
            knows_block_data: seq![],
            knows_extrinsic: seq![],
            block_data: None,
            extrinsic: None,
        }
    }
}

impl KnowledgeEntry {
    fn blank() -> (r: KnowledgeEntry)
        ensures
            r@ == EntryView::blank(),
    {
        KnowledgeEntry {
            knows_block_data: Vec::new(),
            knows_extrinsic: Vec::new(),
            block_data: None,
            extrinsic: None,
        }
    }
}

impl Statement {
    /// The candidate that the statement is about.
    pub open spec fn subject(self) -> H256 {
        match self {
            Statement::Candidate(receipt) => receipt.hash,
            Statement::Valid(hash) => hash,
            Statement::Invalid(hash) => hash,
            Statement::Available(hash) => hash,
        }
    }

    /// Who makes the statement has the extrinsic data as well as the block data.
    pub open spec fn shows_extrinsic(self) -> bool {
        self is Candidate || self is Available
    }
}

/// The entry of a candidate, blank if there is none.
pub open spec fn entry_of(known: Map<H256, EntryView>, candidate: H256) -> EntryView {
    if known.contains_key(candidate) {
        known[candidate]
    } else {
        EntryView::blank()
    }
}

/// The block data of a candidate, as far as it is here.
pub open spec fn block_data_of(known: Map<H256, EntryView>, candidate: H256) -> Option<Seq<u8>> {
    entry_of(known, candidate).block_data
}

/// What is known once a validator has made a statement.
pub open spec fn with_statement(
    known: Map<H256, EntryView>,
    from: SessionKey,
    statement: Statement,
) -> Map<H256, EntryView> {
    let entry = entry_of(known, statement.subject());
    known.insert(
        statement.subject(),
        EntryView {
            knows_block_data: entry.knows_block_data.push(from),
            knows_extrinsic: if statement.shows_extrinsic() {
                entry.knows_extrinsic.push(from)
            } else {
                entry.knows_extrinsic
            },
            ..entry
        },
    )
}

/// The first of two values that is there.
pub open spec fn first_of<T>(a: Option<T>, b: Option<T>) -> Option<T> {
    if a is Some {
        a
    } else {
        b
    }
}

/// What is known once data of a candidate has come in: data that was here stays.
pub open spec fn with_candidate(
    known: Map<H256, EntryView>,
    candidate: H256,
    block_data: Option<Seq<u8>>,
    extrinsic: Option<Seq<u8>>,
) -> Map<H256, EntryView> {
    let entry = entry_of(known, candidate);
    known.insert(
        candidate,
        EntryView {
            block_data: first_of(entry.block_data, block_data),
            extrinsic: first_of(entry.extrinsic, extrinsic),
            ..entry
        },
    )
}

/// Tracks knowledge of peers.
pub struct Knowledge {
    candidates: KeyTable<KnowledgeEntry>,
}

impl View for Knowledge {
    type V = Map<H256, EntryView>;

    closed spec fn view(&self) -> Map<H256, EntryView> {
        self.candidates@.map_values(|entry: KnowledgeEntry| entry@)
    }
}

impl Knowledge {
    /// The table of candidates is in order.
    pub closed spec fn wf(&self) -> bool {
        self.candidates.wf()
    }

    /// Nothing is known of any candidate.
    pub fn new() -> (r: Self)
        ensures
            r.wf(),
            r@ == Map::<H256, EntryView>::empty(),
    {
        let r = Knowledge { candidates: KeyTable::new() };
        assert(r@ =~= Map::<H256, EntryView>::empty());
        r
    }

    /// The entry of a candidate.
    pub fn entry(&self, candidate: &H256) -> (r: Option<&KnowledgeEntry>)
        requires
            self.wf(),
        ensures
            match r {
                Some(entry) => self@.contains_key(*candidate) && entry@ == self@[*candidate],
                None => !self@.contains_key(*candidate),
            },
    {
        self.candidates.get(candidate)
    }

    /// Takes the entry of a candidate out, a blank one if there is none.
    fn take_entry(&mut self, candidate: &H256) -> (r: KnowledgeEntry)
        requires
            old(self).wf(),
        ensures
            final(self).wf(),
            final(self)@ == old(self)@.remove(*candidate),
            r@ == entry_of(old(self)@, *candidate),
    {
        let taken = self.candidates.remove(candidate);
        assert(self@ =~= old(self)@.remove(*candidate));
        match taken {
            Some(entry) => entry,
            None => KnowledgeEntry::blank(),
        }
    }

    fn put_entry(&mut self, candidate: H256, entry: KnowledgeEntry)
        requires
            old(self).wf(),
        ensures
            final(self).wf(),
            final(self)@ == old(self)@.insert(candidate, entry@),
    {
        self.candidates.insert(candidate, entry);
        assert(self@ =~= old(self)@.insert(candidate, entry@));
    }

    /// Notes who made a statement: who states anything on a candidate has its block data, and who
    /// proposes it or calls it available has its extrinsic data too.
    pub fn note_statement(&mut self, from: SessionKey, statement: &Statement)
        requires
            old(self).wf(),
        ensures
            final(self).wf(),
            final(self)@ == with_statement(old(self)@, from, *statement),
    {
        let (candidate, both): (H256, bool) = match statement {
            Statement::Candidate(receipt) => (receipt.hash, true),
            Statement::Available(hash) => (*hash, true),
            Statement::Valid(hash) => (*hash, false),
            Statement::Invalid(hash) => (*hash, false),
        };
        let mut entry = self.take_entry(&candidate);
        entry.knows_block_data.push(from);
        if both {
            entry.knows_extrinsic.push(from);
        }
        self.put_entry(candidate, entry);
        assert(self@ =~= with_statement(old(self)@, from, *statement));
    }

    /// Keeps data of a candidate, unless it is here already.
    pub fn note_candidate(
        &mut self,
        candidate: H256,
        block_data: Option<BlockData>,
        extrinsic: Option<Extrinsic>,
    )
        requires
            old(self).wf(),
        ensures
            final(self).wf(),
            final(self)@ == with_candidate(
                old(self)@,
                candidate,
                optional_bytes(block_data),
                match extrinsic {
                    Some(extrinsic) => Some(extrinsic@),
                    None => None,
                },
            ),
    {
        let mut entry = self.take_entry(&candidate);
        if entry.block_data.is_none() {
            entry.block_data = block_data;
        }
        if entry.extrinsic.is_none() {
            entry.extrinsic = extrinsic;
        }
        self.put_entry(candidate, entry);
        assert(self@ =~= with_candidate(
            old(self)@,
            candidate,
            optional_bytes(block_data),
            match extrinsic {
                Some(extrinsic) => Some(extrinsic@),
                None => None,
            },
        ));
    }

    /// Locally stored block data of a candidate.
    pub fn block_data(&self, candidate: &H256) -> (r: Option<BlockData>)
        requires
            self.wf(),
        ensures
            optional_bytes(r) == block_data_of(self@, *candidate),
    {
        match self.entry(candidate) {
            Some(entry) => match &entry.block_data {
                Some(data) => Some(data.duplicate()),
                None => None,
            },
            None => None,
        }
    }
}

} // verus!
