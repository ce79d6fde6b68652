//! Voter-list events: accounts moved between bags or rescored.

use vstd::prelude::*;

use crate::indexer::{spec_index_entries, write_entries};
use crate::shared::{bytes32_of, lemma_bytes32_of_view, push_bytes32, Key};
use crate::store::{IndexError, Trees};

verus! {

/// The BagsList events the indexer understands, with the fields it extracts.
#[derive(Debug, Clone, Copy, PartialEq)]
pub enum BagsList {
    Rebagged { who: [u8; 32] },
    ScoreUpdated { who: [u8; 32] },
}

/// The identifiers a BagsList event references, in extraction order.
pub open spec fn spec_bags_list_identifiers(e: BagsList) -> Seq<Key> {
    match e {
        BagsList::Rebagged { who } => seq![Key::AccountId(who)],
        BagsList::ScoreUpdated { who } => seq![Key::AccountId(who)],
    }
}

/// Lists the identifiers referenced by a BagsList event.
pub fn bags_list_identifiers(e: &BagsList) -> (r: Vec<Key>)
    ensures
        r@ == spec_bags_list_identifiers(*e),
{
    let mut out: Vec<Key> = Vec::new();
    match e {
        BagsList::Rebagged { who } => out.push(Key::AccountId(*who)),
        BagsList::ScoreUpdated { who } => out.push(Key::AccountId(*who)),
    }
    assert(out@ =~= spec_bags_list_identifiers(*e));
    out
}

/// The compact binary payload of a BagsList event: a variant tag, then the
/// fields in order.
pub open spec fn spec_encode_bags_list(e: BagsList) -> Seq<u8> {
    match e {
        BagsList::Rebagged { who } => seq![0u8] + who@,
        BagsList::ScoreUpdated { who } => seq![1u8] + who@,
    }
}

/// Appends the compact binary payload of a BagsList event.
pub fn encode_bags_list(out: &mut Vec<u8>, e: &BagsList)
    ensures
        final(out)@ == old(out)@ + spec_encode_bags_list(*e),
{
    match e {
        BagsList::Rebagged { who } => {
            out.push(0);
            push_bytes32(out, who);
        },
        BagsList::ScoreUpdated { who } => {
            out.push(1);
            push_bytes32(out, who);
        },
    }
    assert(out@ =~= old(out)@ + spec_encode_bags_list(*e));
}

/// Indexes a BagsList event: one entry in the `account_id` tree per referenced
/// account, with no stored payload.
pub fn bags_list_index_event(
    trees: &mut Trees,
    block_number: u32,
    event_index: u32,
    event: &BagsList,
) -> (r: Result<(), IndexError>)
    ensures
        r is Ok ==> final(trees)@ == spec_index_entries(
            old(trees)@,
            spec_bags_list_identifiers(*event),
            block_number,
            event_index,
            Seq::<u8>::empty(),
        ),
{
    let ids = bags_list_identifiers(event);
    let value: Vec<u8> = Vec::new();
    assert(value@ =~= Seq::<u8>::empty());
    write_entries(trees, &ids, block_number, event_index, &value)
}

/// The BagsList event denoted by a payload, when the bytes are exactly one
/// variant's encoding.
pub open spec fn spec_decode_bags_list(s: Seq<u8>) -> Option<BagsList> {
    if s.len() == 33 && s[0] == 0u8 {
        Some(BagsList::Rebagged { who: bytes32_of(s.subrange(1, 33)) })
    } else if s.len() == 33 && s[0] == 1u8 {
        Some(BagsList::ScoreUpdated { who: bytes32_of(s.subrange(1, 33)) })
    } else {
        None
    }
}

/// The payload encoding is lossless for this pallet.
pub proof fn lemma_bags_list_payload_round_trip(e: BagsList)
    ensures
        spec_decode_bags_list(spec_encode_bags_list(e)) == Some(e),
{
    let s = spec_encode_bags_list(e);
    match e {
        BagsList::Rebagged { who } => {
            assert(s.len() == 33 && s[0] == 0u8);
            assert(s.subrange(1, 33) =~= who@);
            lemma_bytes32_of_view(who, s.subrange(1, 33));
        },
        BagsList::ScoreUpdated { who } => {
            assert(s.len() == 33 && s[0] == 1u8);
            assert(s.subrange(1, 33) =~= who@);
            lemma_bytes32_of_view(who, s.subrange(1, 33));
        },
    }
}

} // verus!
