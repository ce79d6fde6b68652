//! Balances events: value transfers between accounts.  A transfer references
//! both the sending and the receiving account, so one event yields two
//! entries in the `account_id` tree.

use vstd::prelude::*;

use crate::codec::{lemma_u128_le_round_trip, push_u128_le, spec_u128_from_le, spec_u128_le};
use crate::indexer::{spec_index_entries, write_entries};
use crate::shared::{
    bytes32_of, encode_event, lemma_bytes32_of_view, push_bytes32, spec_encode_event, Event, Key,
};
use crate::store::{IndexError, Trees};

verus! {

/// The balances events the indexer understands, with the fields it extracts.
#[derive(Debug, Clone, Copy, PartialEq)]
pub enum Balances {
    Transfer { from: [u8; 32], to: [u8; 32], value: u128 },
}

/// The identifiers a balances event references, in extraction order.
pub open spec fn spec_balances_identifiers(e: Balances) -> Seq<Key> {
    match e {
        Balances::Transfer { from, to, .. } => seq![Key::AccountId(from), Key::AccountId(to)],
    }
}

/// Lists the identifiers referenced by a balances event.
pub fn balances_identifiers(e: &Balances) -> (r: Vec<Key>)
    ensures
        r@ == spec_balances_identifiers(*e),
{
    let mut out: Vec<Key> = Vec::new();
    match e {
        Balances::Transfer { from, to, .. } => {
            out.push(Key::AccountId(*from));
            out.push(Key::AccountId(*to));
        },
    }
    assert(out@ =~= spec_balances_identifiers(*e));
    out
}

/// The compact binary payload of a balances event: a variant tag, then the
/// fields in order (32-byte ids raw, the amount little-endian).
pub open spec fn spec_encode_balances(e: Balances) -> Seq<u8> {
    match e {
        Balances::Transfer { from, to, value } => seq![0u8] + from@ + to@ + spec_u128_le(value),
    }
}

/// Appends the compact binary payload of a balances event.
pub fn encode_balances(out: &mut Vec<u8>, e: &Balances)
    ensures
        final(out)@ == old(out)@ + spec_encode_balances(*e),
{
    match e {
        Balances::Transfer { from, to, value } => {
            out.push(0);
            push_bytes32(out, from);
            push_bytes32(out, to);
            push_u128_le(out, *value);
        },
    }
    assert(out@ =~= old(out)@ + spec_encode_balances(*e));
}

/// Indexes a balances event: one entry per referenced account, each carrying
/// the encoded payload as its value.
pub fn balances_index_event(
    trees: &mut Trees,
    block_number: u32,
    event_index: u32,
    event: &Balances,
) -> (r: Result<(), IndexError>)
    ensures
        r is Ok ==> final(trees)@ == spec_index_entries(
            old(trees)@,
            spec_balances_identifiers(*event),
            block_number,
            event_index,
            spec_encode_event(Event::Balances(*event)),
        ),
{
    let ids = balances_identifiers(event);
    let value = encode_event(&Event::Balances(*event));
    write_entries(trees, &ids, block_number, event_index, &value)
}

/// The balances event denoted by a payload, when the bytes are exactly one
/// variant's encoding.
pub open spec fn spec_decode_balances(s: Seq<u8>) -> Option<Balances> {
    if s.len() == 81 && s[0] == 0u8 {
        Some(
            Balances::Transfer {
                from: bytes32_of(s.subrange(1, 33)),
                to: bytes32_of(s.subrange(33, 65)),
                value: spec_u128_from_le(s.subrange(65, 81)),
            },
        )
    } else {
        None
    }
}

/// The payload encoding is lossless for this pallet.
pub proof fn lemma_balances_payload_round_trip(e: Balances)
    ensures
        spec_decode_balances(spec_encode_balances(e)) == Some(e),
{
    let s = spec_encode_balances(e);
    vstd::bytes::lemma_auto_spec_u64_to_from_le_bytes();
    match e {
        Balances::Transfer { from, to, value } => {
            assert(s.len() == 81 && s[0] == 0u8);
            assert(s.subrange(1, 33) =~= from@);
            lemma_bytes32_of_view(from, s.subrange(1, 33));
            assert(s.subrange(33, 65) =~= to@);
            lemma_bytes32_of_view(to, s.subrange(33, 65));
            assert(s.subrange(65, 81) =~= spec_u128_le(value));
            lemma_u128_le_round_trip(value);
        },
    }
}

} // verus!
