//! What holds of the knowledge of a session.
use vstd::prelude::*;

use crate::knowledge::{block_data_of, entry_of, first_of, with_candidate, with_statement,
    EntryView};
use crate::primitives::{H256, SessionKey, Statement};

verus! {

/// Block data that is here stays, whatever is noted.
pub proof fn law_block_data_is_kept(
    known: Map<H256, EntryView>,
    candidate: H256,
    from: SessionKey,
    statement: Statement,
    other: H256,
    block_data: Option<Seq<u8>>,
    extrinsic: Option<Seq<u8>>,
)
    requires
        block_data_of(known, candidate) is Some,
    ensures
        block_data_of(with_statement(known, from, statement), candidate) == block_data_of(
            known,
            candidate,
        ),
        block_data_of(with_candidate(known, other, block_data, extrinsic), candidate)
            == block_data_of(known, candidate),
{
    let stated = with_statement(known, from, statement);
    let noted = with_candidate(known, other, block_data, extrinsic);
    assert(stated.contains_key(candidate) && noted.contains_key(candidate));
    assert(stated[candidate].block_data == known[candidate].block_data);
    if other == candidate {
        let kept = first_of(known[candidate].block_data, block_data);
        assert(kept == known[candidate].block_data);
        assert(noted[candidate].block_data == kept);
    } else {
        assert(noted[candidate] == known[candidate]);
    }
}

/// Block data that comes in for a candidate without any is here from then on.
pub proof fn law_new_block_data_is_noted(
    known: Map<H256, EntryView>,
    candidate: H256,
    block_data: Seq<u8>,
    extrinsic: Option<Seq<u8>>,
)
    requires
        block_data_of(known, candidate) is None,
    ensures
        block_data_of(with_candidate(known, candidate, Some(block_data), extrinsic), candidate)
            == Some(block_data),
{
}

/// Who makes a statement is last among those that have the candidate's block data, and nobody is
/// forgotten; nothing is learned of other candidates.
pub proof fn law_statement_shows_block_data(
    known: Map<H256, EntryView>,
    from: SessionKey,
    statement: Statement,
    other: H256,
)
    ensures
        entry_of(with_statement(known, from, statement), statement.subject()).knows_block_data
            == entry_of(known, statement.subject()).knows_block_data.push(from),
        other != statement.subject() ==> entry_of(with_statement(known, from, statement), other)
            == entry_of(known, other),
{
}

/// The entry of a candidate is the one that is known, or one that says nothing.
pub proof fn law_entry_is_what_is_known(known: Map<H256, EntryView>, candidate: H256)
    ensures
        known.contains_key(candidate) ==> entry_of(known, candidate) == known[candidate],
        !known.contains_key(candidate) ==> {
            let entry = entry_of(known, candidate);
            &&& entry.knows_block_data.len() == 0
            &&& entry.knows_extrinsic.len() == 0
            &&& entry.block_data is None
            &&& entry.extrinsic is None
        },
        known.contains_key(candidate) ==> block_data_of(known, candidate)
            == known[candidate].block_data,
        !known.contains_key(candidate) ==> block_data_of(known, candidate) is None,
{
}

/// Noting data of a candidate leaves alone who has its data, and leaves every other candidate
/// alone.
pub proof fn law_noting_data_forgets_nobody(
    known: Map<H256, EntryView>,
    candidate: H256,
    block_data: Option<Seq<u8>>,
    extrinsic: Option<Seq<u8>>,
    other: H256,
)
    ensures
        ({
            let noted = with_candidate(known, candidate, block_data, extrinsic);
            &&& entry_of(noted, other).knows_block_data == entry_of(known, other).knows_block_data
            &&& entry_of(noted, other).knows_extrinsic == entry_of(known, other).knows_extrinsic
            &&& other != candidate ==> entry_of(noted, other) == entry_of(known, other)
            &&& noted.contains_key(other) <==> known.contains_key(other) || other == candidate
        }),
{
    let noted = with_candidate(known, candidate, block_data, extrinsic);
    let before = entry_of(known, candidate);
    assert(noted[candidate].knows_block_data == before.knows_block_data);
    assert(noted[candidate].knows_extrinsic == before.knows_extrinsic);
    if other != candidate {
        assert(noted.contains_key(other) == known.contains_key(other));
        assert(known.contains_key(other) ==> noted[other] == known[other]);
        assert(entry_of(noted, other) == entry_of(known, other));
    } else {
        assert(entry_of(noted, other) == noted[candidate]);
    }
}

/// Data that is here stays, and data that is not is filled in, each of the two kinds for itself.
pub proof fn law_noting_data_fills_in(
    known: Map<H256, EntryView>,
    candidate: H256,
    block_data: Option<Seq<u8>>,
    extrinsic: Option<Seq<u8>>,
)
    ensures
        ({
            let before = entry_of(known, candidate);
            let after = entry_of(
                with_candidate(known, candidate, block_data, extrinsic),
                candidate,
            );
            &&& before.block_data is Some ==> after.block_data == before.block_data
            &&& before.block_data is None ==> after.block_data == block_data
            &&& before.extrinsic is Some ==> after.extrinsic == before.extrinsic
            &&& before.extrinsic is None ==> after.extrinsic == extrinsic
        }),
{
    let kept = first_of(entry_of(known, candidate).block_data, block_data);
    let kept_too = first_of(entry_of(known, candidate).extrinsic, extrinsic);
    assert(with_candidate(known, candidate, block_data, extrinsic)[candidate].block_data == kept);
    assert(with_candidate(known, candidate, block_data, extrinsic)[candidate].extrinsic
        == kept_too);
}

/// Noting the same data again changes nothing.
pub proof fn law_noting_data_again_changes_nothing(
    known: Map<H256, EntryView>,
    candidate: H256,
    block_data: Option<Seq<u8>>,
    extrinsic: Option<Seq<u8>>,
)
    ensures
        ({
            let noted = with_candidate(known, candidate, block_data, extrinsic);
            with_candidate(noted, candidate, block_data, extrinsic) == noted
        }),
{
    let noted = with_candidate(known, candidate, block_data, extrinsic);
    let again = with_candidate(noted, candidate, block_data, extrinsic);
    law_noting_data_fills_in(known, candidate, block_data, extrinsic);
    law_noting_data_fills_in(noted, candidate, block_data, extrinsic);
    assert(again[candidate].knows_block_data == noted[candidate].knows_block_data);
    assert(again[candidate].knows_extrinsic == noted[candidate].knows_extrinsic);
    assert(again[candidate].block_data == noted[candidate].block_data);
    assert(again[candidate].extrinsic == noted[candidate].extrinsic);
    assert(again =~= noted);
}

/// A statement is about the candidate that it proposes or names: there its maker is added last to
/// those that have the block data, and, where it proposes the candidate or calls it available,
/// last to those that have the extrinsic data. Nothing else changes, of this candidate or another.
pub proof fn law_statement_is_noted(
    known: Map<H256, EntryView>,
    from: SessionKey,
    statement: Statement,
    subject: H256,
    both: bool,
    candidate: H256,
)
    requires
        match statement {
            Statement::Candidate(receipt) => subject == receipt.hash && both,
            Statement::Available(hash) => subject == hash && both,
            Statement::Valid(hash) => subject == hash && !both,
            Statement::Invalid(hash) => subject == hash && !both,
        },
    ensures
        ({
            let before = entry_of(known, candidate);
            let after = entry_of(with_statement(known, from, statement), candidate);
            &&& after.block_data == before.block_data
            &&& after.extrinsic == before.extrinsic
            &&& candidate == subject ==> after.knows_block_data == before.knows_block_data.push(
                from,
            )
            &&& candidate != subject ==> after.knows_block_data == before.knows_block_data
            &&& candidate == subject && both ==> after.knows_extrinsic
                == before.knows_extrinsic.push(from)
            &&& candidate != subject || !both ==> after.knows_extrinsic == before.knows_extrinsic
            &&& with_statement(known, from, statement).contains_key(candidate)
                <==> known.contains_key(candidate) || candidate == subject
        }),
{
    let noted = with_statement(known, from, statement);
    let before = entry_of(known, subject);
    assert(statement.subject() == subject);
    assert(noted[subject].block_data == before.block_data);
    assert(noted[subject].extrinsic == before.extrinsic);
    if candidate != subject {
        assert(noted.contains_key(candidate) == known.contains_key(candidate));
        assert(known.contains_key(candidate) ==> noted[candidate] == known[candidate]);
        assert(entry_of(noted, candidate) == entry_of(known, candidate));
    } else {
        assert(entry_of(noted, candidate) == noted[subject]);
    }
}

/// Noting data and noting a statement do not get in each other's way: in either order they leave
/// the same of every candidate.
pub proof fn law_data_and_statements_commute(
    known: Map<H256, EntryView>,
    from: SessionKey,
    statement: Statement,
    candidate: H256,
    block_data: Option<Seq<u8>>,
    extrinsic: Option<Seq<u8>>,
)
    ensures
        with_candidate(with_statement(known, from, statement), candidate, block_data, extrinsic)
            == with_statement(
            with_candidate(known, candidate, block_data, extrinsic),
            from,
            statement,
        ),
{
    let a = with_candidate(
        with_statement(known, from, statement),
        candidate,
        block_data,
        extrinsic,
    );
    let b = with_statement(
        with_candidate(known, candidate, block_data, extrinsic),
        from,
        statement,
    );
    assert forall|x: H256| #[trigger] a.contains_key(x) implies a[x] == b[x] by {
        assert(a[x].knows_block_data =~= b[x].knows_block_data);
        assert(a[x].knows_extrinsic =~= b[x].knows_extrinsic);
        assert(a[x].block_data == b[x].block_data);
        assert(a[x].extrinsic == b[x].extrinsic);
    }
    assert(a =~= b);
}

} // verus!
