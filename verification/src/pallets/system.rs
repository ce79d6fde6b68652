//! System events: account lifecycle and remarks.

use vstd::prelude::*;

use crate::indexer::{spec_index_entries, write_entries};
use crate::shared::{bytes32_of, lemma_bytes32_of_view, push_bytes32, Key};
use crate::store::{IndexError, Trees};

verus! {

/// The System events the indexer understands, with the fields it extracts.
#[derive(Debug, Clone, Copy, PartialEq)]
pub enum System {
    NewAccount { account: [u8; 32] },
    KilledAccount { account: [u8; 32] },
    Remarked { sender: [u8; 32] },
}

/// The identifiers a System event references, in extraction order.
pub open spec fn spec_system_identifiers(e: System) -> Seq<Key> {
    match e {
        System::NewAccount { account } => seq![Key::AccountId(account)],
        System::KilledAccount { account } => seq![Key::AccountId(account)],
        System::Remarked { sender } => seq![Key::AccountId(sender)],
    }
}

/// Lists the identifiers referenced by a System event.
pub fn system_identifiers(e: &System) -> (r: Vec<Key>)
    ensures
        r@ == spec_system_identifiers(*e),
{
    let mut out: Vec<Key> = Vec::new();
    match e {
        System::NewAccount { account } => out.push(Key::AccountId(*account)),
        System::KilledAccount { account } => out.push(Key::AccountId(*account)),
        System::Remarked { sender } => out.push(Key::AccountId(*sender)),
    }
    assert(out@ =~= spec_system_identifiers(*e));
    out
}

/// The compact binary payload of a System event: a variant tag, then the
/// fields in order.
pub open spec fn spec_encode_system(e: System) -> Seq<u8> {
    match e {
        System::NewAccount { account } => seq![0u8] + account@,
        System::KilledAccount { account } => seq![1u8] + account@,
        System::Remarked { sender } => seq![2u8] + sender@,
    }
}

/// Appends the compact binary payload of a System event.
pub fn encode_system(out: &mut Vec<u8>, e: &System)
    ensures
        final(out)@ == old(out)@ + spec_encode_system(*e),
{
    match e {
        System::NewAccount { account } => {
            out.push(0);
            push_bytes32(out, account);
        },
        System::KilledAccount { account } => {
            out.push(1);
            push_bytes32(out, account);
        },
        System::Remarked { sender } => {
            out.push(2);
            push_bytes32(out, sender);
        },
    }
    assert(out@ =~= old(out)@ + spec_encode_system(*e));
}

/// Indexes a System event: one entry in the `account_id` tree per referenced
/// account, with no stored payload.
pub fn system_index_event(
    trees: &mut Trees,
    block_number: u32,
    event_index: u32,
    event: &System,
) -> (r: Result<(), IndexError>)
    ensures
        r is Ok ==> final(trees)@ == spec_index_entries(
            old(trees)@,
            spec_system_identifiers(*event),
            block_number,
            event_index,
            Seq::<u8>::empty(),
        ),
{
    let ids = system_identifiers(event);
    let value: Vec<u8> = Vec::new();
    assert(value@ =~= Seq::<u8>::empty());
    write_entries(trees, &ids, block_number, event_index, &value)
}

/// The System event denoted by a payload, when the bytes are exactly one
/// variant's encoding.
pub open spec fn spec_decode_system(s: Seq<u8>) -> Option<System> {
    if s.len() == 33 && s[0] == 0u8 {
        Some(System::NewAccount { account: bytes32_of(s.subrange(1, 33)) })
    } else if s.len() == 33 && s[0] == 1u8 {
        Some(System::KilledAccount { account: bytes32_of(s.subrange(1, 33)) })
    } else if s.len() == 33 && s[0] == 2u8 {
        Some(System::Remarked { sender: bytes32_of(s.subrange(1, 33)) })
    } else {
        None
    }
}

/// The payload encoding is lossless for this pallet.
pub proof fn lemma_system_payload_round_trip(e: System)
    ensures
        spec_decode_system(spec_encode_system(e)) == Some(e),
{
    let s = spec_encode_system(e);
    match e {
        System::NewAccount { account } => {
            assert(s.len() == 33 && s[0] == 0u8);
            assert(s.subrange(1, 33) =~= account@);
            lemma_bytes32_of_view(account, s.subrange(1, 33));
        },
        System::KilledAccount { account } => {
            assert(s.len() == 33 && s[0] == 1u8);
            assert(s.subrange(1, 33) =~= account@);
            lemma_bytes32_of_view(account, s.subrange(1, 33));
        },
        System::Remarked { sender } => {
            assert(s.len() == 33 && s[0] == 2u8);
            assert(s.subrange(1, 33) =~= sender@);
            lemma_bytes32_of_view(sender, s.subrange(1, 33));
        },
    }
}

} // verus!
