//! Vesting events: vesting schedules updated or completed.

use vstd::prelude::*;

use crate::indexer::{spec_index_entries, write_entries};
use crate::shared::{bytes32_of, lemma_bytes32_of_view, push_bytes32, Key};
use crate::store::{IndexError, Trees};

verus! {

/// The Vesting events the indexer understands, with the fields it extracts.
#[derive(Debug, Clone, Copy, PartialEq)]
pub enum Vesting {
    VestingUpdated { account: [u8; 32] },
    VestingCompleted { account: [u8; 32] },
}

/// The identifiers a Vesting event references, in extraction order.
pub open spec fn spec_vesting_identifiers(e: Vesting) -> Seq<Key> {
    match e {
        Vesting::VestingUpdated { account } => seq![Key::AccountId(account)],
        Vesting::VestingCompleted { account } => seq![Key::AccountId(account)],
    }
}

/// Lists the identifiers referenced by a Vesting event.
pub fn vesting_identifiers(e: &Vesting) -> (r: Vec<Key>)
    ensures
        r@ == spec_vesting_identifiers(*e),
{
    let mut out: Vec<Key> = Vec::new();
    match e {
        Vesting::VestingUpdated { account } => out.push(Key::AccountId(*account)),
        Vesting::VestingCompleted { account } => out.push(Key::AccountId(*account)),
    }
    assert(out@ =~= spec_vesting_identifiers(*e));
    out
}

/// The compact binary payload of a Vesting event: a variant tag, then the
/// fields in order.
pub open spec fn spec_encode_vesting(e: Vesting) -> Seq<u8> {
    match e {
        Vesting::VestingUpdated { account } => seq![0u8] + account@,
        Vesting::VestingCompleted { account } => seq![1u8] + account@,
    }
}

/// Appends the compact binary payload of a Vesting event.
pub fn encode_vesting(out: &mut Vec<u8>, e: &Vesting)
    ensures
        final(out)@ == old(out)@ + spec_encode_vesting(*e),
{
    match e {
        Vesting::VestingUpdated { account } => {
            out.push(0);
            push_bytes32(out, account);
        },
        Vesting::VestingCompleted { account } => {
            out.push(1);
            push_bytes32(out, account);
        },
    }
    assert(out@ =~= old(out)@ + spec_encode_vesting(*e));
}

/// Indexes a Vesting event: one entry in the `account_id` tree per referenced
/// account, with no stored payload.
pub fn vesting_index_event(
    trees: &mut Trees,
    block_number: u32,
    event_index: u32,
    event: &Vesting,
) -> (r: Result<(), IndexError>)
    ensures
        r is Ok ==> final(trees)@ == spec_index_entries(
            old(trees)@,
            spec_vesting_identifiers(*event),
            block_number,
            event_index,
            Seq::<u8>::empty(),
        ),
{
    let ids = vesting_identifiers(event);
    let value: Vec<u8> = Vec::new();
    assert(value@ =~= Seq::<u8>::empty());
    write_entries(trees, &ids, block_number, event_index, &value)
}

/// The Vesting event denoted by a payload, when the bytes are exactly one
/// variant's encoding.
pub open spec fn spec_decode_vesting(s: Seq<u8>) -> Option<Vesting> {
    if s.len() == 33 && s[0] == 0u8 {
        Some(Vesting::VestingUpdated { account: bytes32_of(s.subrange(1, 33)) })
    } else if s.len() == 33 && s[0] == 1u8 {
        Some(Vesting::VestingCompleted { account: bytes32_of(s.subrange(1, 33)) })
    } else {
        None
    }
}

/// The payload encoding is lossless for this pallet.
pub proof fn lemma_vesting_payload_round_trip(e: Vesting)
    ensures
        spec_decode_vesting(spec_encode_vesting(e)) == Some(e),
{
    let s = spec_encode_vesting(e);
    match e {
        Vesting::VestingUpdated { account } => {
            assert(s.len() == 33 && s[0] == 0u8);
            assert(s.subrange(1, 33) =~= account@);
            lemma_bytes32_of_view(account, s.subrange(1, 33));
        },
        Vesting::VestingCompleted { account } => {
            assert(s.len() == 33 && s[0] == 1u8);
            assert(s.subrange(1, 33) =~= account@);
            lemma_bytes32_of_view(account, s.subrange(1, 33));
        },
    }
}

} // verus!
