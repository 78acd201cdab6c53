//! What a node announces of itself when it connects.
use vstd::prelude::*;

use crate::bytes::{le_bytes, lemma_le_bytes_len, lemma_le_bytes_of_value, lemma_le_limits,
    lemma_le_value_of_bytes};
use crate::codec::{push_byte, push_id, push_u32, read_byte, read_id, read_u32};
use crate::primitives::{AccountId, ParaId};

verus! {

/// Status of a node: the account and the parachain that it collates for, if it does.
#[derive(Clone, Copy, Debug, PartialEq, Eq)]
pub struct Status {
    pub collating_for: Option<(AccountId, ParaId)>,
}

impl Status {
    /// The bytes of a status: a zero, or a one with the account and the parachain.
    pub open spec fn encoding(self) -> Seq<u8> {
        match self.collating_for {
            Some((account, para)) => seq![1u8] + account@ + le_bytes(para as nat, 4),
            None => seq![0u8],
        }
    }

    /// The bytes begin with this status.
    pub open spec fn leads(self, bytes: Seq<u8>) -> bool {
        self.encoding().is_prefix_of(bytes)
    }

    /// The status that the bytes begin with, if there is one.
    pub open spec fn announced(bytes: Seq<u8>) -> Option<Status> {
        if exists|status: Status| #[trigger] status.leads(bytes) {
            Some(choose|status: Status| #[trigger] status.leads(bytes))
        } else {
            None
        }
    }

    /// Appends the encoded status to `dest`.
    pub fn encode_to(&self, dest: &mut Vec<u8>)
        ensures
            final(dest)@ == old(dest)@ + self.encoding(),
    {
        match &self.collating_for {
            Some((account, para)) => {
                push_byte(dest, 1);
                push_id(dest, account);
                push_u32(dest, *para);
            },
            None => {
                push_byte(dest, 0);
            },
        }
        assert(dest@ =~= old(dest)@ + self.encoding());
    }

    /// The encoded status.
    pub fn encode(&self) -> (r: Vec<u8>)
        ensures
            r@ == self.encoding(),
    {
        let mut dest: Vec<u8> = Vec::new();
        self.encode_to(&mut dest);
        assert(dest@ =~= self.encoding());
        dest
    }

    /// Reads a status off the front of `input`, if one is there. Returns what was read and what is
    /// left; nothing is said of what is left after a failure.
    pub fn decode(input: &[u8]) -> (r: (Option<Status>, &[u8]))
        ensures
            r.0 == Status::announced(input@),
            match r.0 {
                Some(status) => status.leads(input@) && r.1@ == input@.skip(
                    status.encoding().len() as int,
                ),
                None => forall|status: Status| !#[trigger] status.leads(input@),
            },
    {
        let ghost s = input@;
        proof {
            assert forall|status: Status| #[trigger] status.leads(s) implies Status::announced(s)
                == Some(status) by {
                lemma_status_unambiguous(status, Status::announced(s)->0, s);
            }
            assert forall|status: Status| #[trigger] status.leads(s) implies s.len() >= 1 && match
                status.collating_for {
                Some((account, para)) => s[0] == 1 && s.len() >= 37,
                None => s[0] == 0,
            } by {
                if let Some((account, para)) = status.collating_for {
                    lemma_le_bytes_len(para as nat, 4);
                }
                assert(status.encoding()[0] == s[0]);
            }
        }
        match read_byte(input) {
            (Some(0), rest) => {
                let status = Status { collating_for: None };
                assert(status.encoding() =~= s.take(1));
                assert(status.leads(s));
                (Some(status), rest)
            },
            (Some(1), rest) => match read_id(rest) {
                (Some(account), rest) => match read_u32(rest) {
                    (Some(para), rest) => {
                        let status = Status { collating_for: Some((account, para)) };
                        proof {
                            lemma_le_bytes_of_value(s.skip(1).skip(32).take(4));
                            assert(status.encoding() =~= s.take(37));
                            assert(status.leads(s));
                            assert(rest@ =~= s.skip(37));
                        }
                        (Some(status), rest)
                    },
                    (None, rest) => (None, rest),
                },
                (None, rest) => (None, rest),
            },
            (_, rest) => (None, rest),
        }
    }
}

/// No bytes begin with two different statuses.
pub proof fn lemma_status_unambiguous(a: Status, b: Status, bytes: Seq<u8>)
    requires
        a.leads(bytes),
        b.leads(bytes),
    ensures
        a == b,
{
    assert(a.encoding()[0] == bytes[0] && b.encoding()[0] == bytes[0]);
    if let (Some((account_a, para_a)), Some((account_b, para_b))) = (
        a.collating_for,
        b.collating_for,
    ) {
        lemma_le_bytes_len(para_a as nat, 4);
        lemma_le_bytes_len(para_b as nat, 4);
        assert(account_a@ =~= bytes.subrange(1, 33)) by {
            assert(a.encoding().subrange(1, 33) =~= account_a@);
        }
        assert(account_b@ =~= bytes.subrange(1, 33)) by {
            assert(b.encoding().subrange(1, 33) =~= account_b@);
        }
        assert(account_a =~= account_b);
        assert(le_bytes(para_a as nat, 4) =~= bytes.subrange(33, 37)) by {
            assert(a.encoding().subrange(33, 37) =~= le_bytes(para_a as nat, 4));
        }
        assert(le_bytes(para_b as nat, 4) =~= bytes.subrange(33, 37)) by {
            assert(b.encoding().subrange(33, 37) =~= le_bytes(para_b as nat, 4));
        }
        lemma_le_limits();
        lemma_le_value_of_bytes(para_a as nat, 4);
        lemma_le_value_of_bytes(para_b as nat, 4);
    }
}

} // verus!
