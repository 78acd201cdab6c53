//! Little-endian numbers.
use vstd::prelude::*;

verus! {

/// The `width` lowest bytes of `value`, the lowest first.
pub open spec fn le_bytes(value: nat, width: nat) -> Seq<u8>
    decreases width,
{
    if width == 0 {
        seq![]
    } else {
        seq![(value % 256) as u8] + le_bytes(value / 256, (width - 1) as nat)
    }
}

/// The number that `bytes` spell, the lowest first.
pub open spec fn le_value(bytes: Seq<u8>) -> nat
    decreases bytes.len(),
{
    if bytes.len() == 0 {
        0
    } else {
        bytes[0] as nat + 256 * le_value(bytes.drop_first())
    }
}

/// The first number that needs more than `width` bytes.
pub open spec fn le_limit(width: nat) -> nat
    decreases width,
{
    if width == 0 {
        1
    } else {
        256 * le_limit((width - 1) as nat)
    }
}

/// Every number is written in exactly as many bytes as asked for.
pub proof fn lemma_le_bytes_len(value: nat, width: nat)
    ensures
        le_bytes(value, width).len() == width,
    decreases width,
{
    if width > 0 {
        lemma_le_bytes_len(value / 256, (width - 1) as nat);
    }
}

/// Reading back the bytes of a number that fits gives the number.
pub proof fn lemma_le_value_of_bytes(value: nat, width: nat)
    requires
        value < le_limit(width),
    ensures
        le_value(le_bytes(value, width)) == value,
    decreases width,
{
    if width > 0 {
        let rest = le_bytes(value / 256, (width - 1) as nat);
        lemma_le_value_of_bytes(value / 256, (width - 1) as nat);
        assert(le_bytes(value, width).drop_first() =~= rest);
    }
}

/// Writing the number that some bytes spell gives the bytes.
pub proof fn lemma_le_bytes_of_value(bytes: Seq<u8>)
    ensures
        le_bytes(le_value(bytes), bytes.len()) == bytes,
    decreases bytes.len(),
{
    if bytes.len() > 0 {
        let tail = bytes.drop_first();
        lemma_le_bytes_of_value(tail);
        let value = le_value(bytes);
        assert(value % 256 == bytes[0] as nat);
        assert(value / 256 == le_value(tail));
        assert(le_bytes(value, bytes.len()) =~= seq![bytes[0]] + tail);
        assert(seq![bytes[0]] + tail =~= bytes);
    } else {
        assert(le_bytes(le_value(bytes), 0) =~= bytes);
    }
}

/// Four bytes hold what a `u32` holds, eight what a `u64` holds.
pub proof fn lemma_le_limits()
    ensures
        le_limit(4) == u32::MAX + 1,
        le_limit(8) == u64::MAX + 1,
{
    reveal_with_fuel(le_limit, 9);
}

} // verus!
