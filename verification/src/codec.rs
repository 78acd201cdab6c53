//! The field encodings of the wire format.
//!
//! Numbers, 32-byte identifiers and byte strings are written and read by the `parity_codec`
//! crate. Its functions are called here and nowhere else.
use vstd::prelude::*;

use crate::bytes::{le_bytes, le_value};

verus! {

/// The encoding of a byte string: its length in four bytes, then the bytes.
pub open spec fn bytes_encoding(bytes: Seq<u8>) -> Seq<u8> {
    le_bytes(bytes.len(), 4) + bytes
}

/// Calls `parity_codec::Output::push_byte`: the byte is appended to `dest`.
#[verifier::external_body]
pub(crate) fn push_byte(dest: &mut Vec<u8>, byte: u8)
    ensures
        final(dest)@ == old(dest)@.push(byte),
{
    parity_codec::Output::push_byte(dest, byte)
}

/// Calls `parity_codec::Output::push` with a `u32`: its four bytes are appended to `dest`, the
/// lowest first.
#[verifier::external_body]
pub(crate) fn push_u32(dest: &mut Vec<u8>, value: u32)
    ensures
        final(dest)@ == old(dest)@ + le_bytes(value as nat, 4),
{
    parity_codec::Output::push(dest, &value)
}

/// Calls `parity_codec::Output::push` with a `u64`: its eight bytes are appended to `dest`, the
/// lowest first.
#[verifier::external_body]
pub(crate) fn push_u64(dest: &mut Vec<u8>, value: u64)
    ensures
        final(dest)@ == old(dest)@ + le_bytes(value as nat, 8),
{
    parity_codec::Output::push(dest, &value)
}

/// Calls `parity_codec::Output::push` with a `[u8; 32]`: the bytes are appended to `dest` as they
/// are, with no length in front.
#[verifier::external_body]
pub(crate) fn push_id(dest: &mut Vec<u8>, id: &[u8; 32])
    ensures
        final(dest)@ == old(dest)@ + id@,
{
    parity_codec::Output::push(dest, id)
}

/// Calls `parity_codec::Output::push` with a `Vec<u8>`: the length in four bytes and then the
/// bytes are appended to `dest`. The crate panics on a length that four bytes cannot hold.
#[verifier::external_body]
pub(crate) fn push_bytes(dest: &mut Vec<u8>, bytes: &Vec<u8>)
    requires
        bytes@.len() <= u32::MAX,
    ensures
        final(dest)@ == old(dest)@ + bytes_encoding(bytes@),
{
    parity_codec::Output::push(dest, bytes)
}

/// Calls `parity_codec::Input::read_byte` on a slice: the first byte is taken off, if there is
/// one. Returns what was read and what is left; nothing is said of what is left after a failure.
#[verifier::external_body]
pub(crate) fn read_byte(input: &[u8]) -> (r: (Option<u8>, &[u8]))
    ensures
        match r.0 {
            Some(byte) => input@.len() >= 1 && byte == input@[0] && r.1@ == input@.skip(1),
            None => input@.len() == 0,
        },
{
    let mut rest = input;
    let byte = parity_codec::Input::read_byte(&mut rest);
    (byte, rest)
}

/// Calls `<u32 as parity_codec::Decode>::decode` on a slice: four bytes are taken off and read
/// with the lowest first, if there are as many. Returns what was read and what is left; nothing
/// is said of what is left after a failure.
#[verifier::external_body]
pub(crate) fn read_u32(input: &[u8]) -> (r: (Option<u32>, &[u8]))
    ensures
        match r.0 {
            Some(value) => input@.len() >= 4 && value == le_value(input@.take(4)) && r.1@
                == input@.skip(4),
            None => input@.len() < 4,
        },
{
    let mut rest = input;
    let value = parity_codec::Decode::decode(&mut rest);
    (value, rest)
}

/// Calls `<u64 as parity_codec::Decode>::decode` on a slice: eight bytes are taken off and read
/// with the lowest first, if there are as many. Returns what was read and what is left; nothing
/// is said of what is left after a failure.
#[verifier::external_body]
pub(crate) fn read_u64(input: &[u8]) -> (r: (Option<u64>, &[u8]))
    ensures
        match r.0 {
            Some(value) => input@.len() >= 8 && value == le_value(input@.take(8)) && r.1@
                == input@.skip(8),
            None => input@.len() < 8,
        },
{
    let mut rest = input;
    let value = parity_codec::Decode::decode(&mut rest);
    (value, rest)
}

/// Calls `<[u8; 32] as parity_codec::Decode>::decode` on a slice: thirty-two bytes are taken off
/// as they are, if there are as many. Returns what was read and what is left; nothing is said of
/// what is left after a failure.
#[verifier::external_body]
pub(crate) fn read_id(input: &[u8]) -> (r: (Option<[u8; 32]>, &[u8]))
    ensures
        match r.0 {
            Some(id) => input@.len() >= 32 && id@ == input@.take(32) && r.1@ == input@.skip(32),
            None => input@.len() < 32,
        },
{
    let mut rest = input;
    let id = parity_codec::Decode::decode(&mut rest);
    (id, rest)
}

/// Calls `<Vec<u8> as parity_codec::Decode>::decode` on a slice: a length is read from four
/// bytes, and then as many bytes. The crate sets aside memory for the length that it reads
/// before it looks for the bytes, so the bytes have to be there.
#[verifier::external_body]
fn read_present_bytes(input: &[u8]) -> (r: (Option<Vec<u8>>, &[u8]))
    requires
        input@.len() >= 4,
        le_value(input@.take(4)) <= input@.len() - 4,
    ensures
        r.0 is Some,
        r.0->0@ == input@.subrange(4, 4 + le_value(input@.take(4)) as int),
        r.1@ == input@.skip(4 + le_value(input@.take(4)) as int),
{
    let mut rest = input;
    let bytes = parity_codec::Decode::decode(&mut rest);
    (bytes, rest)
}

/// Reads a byte string off the front of `input`, if one is there in full. Returns what was read
/// and what is left.
pub fn read_bytes(input: &[u8]) -> (r: (Option<Vec<u8>>, &[u8]))
    ensures
        match r.0 {
            Some(bytes) => input@.len() >= 4 && bytes@.len() == le_value(input@.take(4))
                && bytes@.len() + 4 <= input@.len() && bytes@ == input@.subrange(
                4,
                4 + bytes@.len() as int,
            ) && r.1@ == input@.skip(4 + bytes@.len() as int),
            None => input@.len() < 4 || le_value(input@.take(4)) > input@.len() - 4,
        },
{
    match read_u32(input) {
        (Some(length), rest) => {
            if length as u64 > rest.len() as u64 {
                return (None, rest);
            }
            read_present_bytes(input)
        },
        (None, rest) => (None, rest),
    }
}

} // verus!
