//! Claims events: pre-launch token claims by account.

use vstd::prelude::*;

use crate::indexer::{spec_index_entries, write_entries};
use crate::shared::{bytes32_of, lemma_bytes32_of_view, push_bytes32, Key};
use crate::store::{IndexError, Trees};

verus! {

/// The Claims events the indexer understands, with the fields it extracts.
#[derive(Debug, Clone, Copy, PartialEq)]
pub enum Claims {
    Claimed { who: [u8; 32] },
}

/// The identifiers a Claims event references, in extraction order.
pub open spec fn spec_claims_identifiers(e: Claims) -> Seq<Key> {
    match e {
        Claims::Claimed { who } => seq![Key::AccountId(who)],
    }
}

/// Lists the identifiers referenced by a Claims event.
pub fn claims_identifiers(e: &Claims) -> (r: Vec<Key>)
    ensures
        r@ == spec_claims_identifiers(*e),
{
    let mut out: Vec<Key> = Vec::new();
    match e {
        Claims::Claimed { who } => out.push(Key::AccountId(*who)),
    }
    assert(out@ =~= spec_claims_identifiers(*e));
    out
}

/// The compact binary payload of a Claims event: a variant tag, then the
/// fields in order.
pub open spec fn spec_encode_claims(e: Claims) -> Seq<u8> {
    match e {
        Claims::Claimed { who } => seq![0u8] + who@,
    }
}

/// Appends the compact binary payload of a Claims event.
pub fn encode_claims(out: &mut Vec<u8>, e: &Claims)
    ensures
        final(out)@ == old(out)@ + spec_encode_claims(*e),
{
    match e {
        Claims::Claimed { who } => {
            out.push(0);
            push_bytes32(out, who);
        },
    }
    assert(out@ =~= old(out)@ + spec_encode_claims(*e));
}

/// Indexes a Claims event: one entry in the `account_id` tree per referenced
/// account, with no stored payload.
pub fn claims_index_event(
    trees: &mut Trees,
    block_number: u32,
    event_index: u32,
    event: &Claims,
) -> (r: Result<(), IndexError>)
    ensures
        r is Ok ==> final(trees)@ == spec_index_entries(
            old(trees)@,
            spec_claims_identifiers(*event),
            block_number,
            event_index,
            Seq::<u8>::empty(),
        ),
{
    let ids = claims_identifiers(event);
    let value: Vec<u8> = Vec::new();
    assert(value@ =~= Seq::<u8>::empty());
    write_entries(trees, &ids, block_number, event_index, &value)
}

/// The Claims event denoted by a payload, when the bytes are exactly one
/// variant's encoding.
pub open spec fn spec_decode_claims(s: Seq<u8>) -> Option<Claims> {
    if s.len() == 33 && s[0] == 0u8 {
        Some(Claims::Claimed { who: bytes32_of(s.subrange(1, 33)) })
    } else {
        None
    }
}

/// The payload encoding is lossless for this pallet.
pub proof fn lemma_claims_payload_round_trip(e: Claims)
    ensures
        spec_decode_claims(spec_encode_claims(e)) == Some(e),
{
    let s = spec_encode_claims(e);
    match e {
        Claims::Claimed { who } => {
            assert(s.len() == 33 && s[0] == 0u8);
            assert(s.subrange(1, 33) =~= who@);
            lemma_bytes32_of_view(who, s.subrange(1, 33));
        },
    }
}

} // verus!
