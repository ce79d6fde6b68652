//! Collective (council) events: proposals, votes, and their outcomes.  A
//! single event can reference an account, a proposal index, and a proposal
//! hash at once; indexing it then establishes the join across those trees.

use vstd::prelude::*;

use crate::codec::{lemma_u32_le_round_trip, push_u32_le, spec_u32_from_le, spec_u32_le};
use crate::indexer::{spec_index_entries, write_entries};
use crate::shared::{
    bytes32_of, encode_event, lemma_bytes32_of_view, push_bytes32, spec_encode_event, Event, Key,
};
use crate::store::{IndexError, Trees};

verus! {

/// The collective events the indexer understands, with the fields it
/// extracts.
#[derive(Debug, Clone, Copy, PartialEq)]
pub enum Collective {
    Proposed { account: [u8; 32], proposal_index: u32, proposal_hash: [u8; 32], threshold: u32 },
    Voted { account: [u8; 32], proposal_hash: [u8; 32], voted: bool, yes: u32, no: u32 },
    Approved { proposal_hash: [u8; 32] },
    Disapproved { proposal_hash: [u8; 32] },
    Executed { proposal_hash: [u8; 32] },
    MemberExecuted { proposal_hash: [u8; 32] },
    Closed { proposal_hash: [u8; 32], yes: u32, no: u32 },
}

/// The identifiers a collective event references, in extraction order.
pub open spec fn spec_collective_identifiers(e: Collective) -> Seq<Key> {
    match e {
        Collective::Proposed { account, proposal_index, proposal_hash, .. } => seq![
            Key::AccountId(account),
            Key::ProposalIndex(proposal_index),
            Key::ProposalHash(proposal_hash),
        ],
        Collective::Voted { account, proposal_hash, .. } => seq![
            Key::AccountId(account),
            Key::ProposalHash(proposal_hash),
        ],
        Collective::Approved { proposal_hash } => seq![Key::ProposalHash(proposal_hash)],
        Collective::Disapproved { proposal_hash } => seq![Key::ProposalHash(proposal_hash)],
        Collective::Executed { proposal_hash } => seq![Key::ProposalHash(proposal_hash)],
        Collective::MemberExecuted { proposal_hash } => seq![Key::ProposalHash(proposal_hash)],
        Collective::Closed { proposal_hash, .. } => seq![Key::ProposalHash(proposal_hash)],
    }
}

/// Lists the identifiers referenced by a collective event.
pub fn collective_identifiers(e: &Collective) -> (r: Vec<Key>)
    ensures
        r@ == spec_collective_identifiers(*e),
{
    let mut out: Vec<Key> = Vec::new();
    match e {
        Collective::Proposed { account, proposal_index, proposal_hash, .. } => {
            out.push(Key::AccountId(*account));
            out.push(Key::ProposalIndex(*proposal_index));
            out.push(Key::ProposalHash(*proposal_hash));
        },
        Collective::Voted { account, proposal_hash, .. } => {
            out.push(Key::AccountId(*account));
            out.push(Key::ProposalHash(*proposal_hash));
        },
        Collective::Approved { proposal_hash } => out.push(Key::ProposalHash(*proposal_hash)),
        Collective::Disapproved { proposal_hash } => out.push(Key::ProposalHash(*proposal_hash)),
        Collective::Executed { proposal_hash } => out.push(Key::ProposalHash(*proposal_hash)),
        Collective::MemberExecuted { proposal_hash } => out.push(
            Key::ProposalHash(*proposal_hash),
        ),
        Collective::Closed { proposal_hash, .. } => out.push(Key::ProposalHash(*proposal_hash)),
    }
    assert(out@ =~= spec_collective_identifiers(*e));
    out
}

/// The compact binary payload of a collective event: a variant tag, then the
/// fields in order (32-byte ids raw, integers little-endian, booleans one
/// byte).
pub open spec fn spec_encode_collective(e: Collective) -> Seq<u8> {
    match e {
        Collective::Proposed { account, proposal_index, proposal_hash, threshold } => seq![0u8]
            + account@ + spec_u32_le(proposal_index) + proposal_hash@ + spec_u32_le(threshold),
        Collective::Voted { account, proposal_hash, voted, yes, no } => seq![1u8] + account@
            + proposal_hash@ + seq![(if voted { 1u8 } else { 0u8 })] + spec_u32_le(yes)
            + spec_u32_le(no),
        Collective::Approved { proposal_hash } => seq![2u8] + proposal_hash@,
        Collective::Disapproved { proposal_hash } => seq![3u8] + proposal_hash@,
        Collective::Executed { proposal_hash } => seq![4u8] + proposal_hash@,
        Collective::MemberExecuted { proposal_hash } => seq![5u8] + proposal_hash@,
        Collective::Closed { proposal_hash, yes, no } => seq![6u8] + proposal_hash@ + spec_u32_le(
            yes,
        ) + spec_u32_le(no),
    }
}

/// Appends the compact binary payload of a collective event.
pub fn encode_collective(out: &mut Vec<u8>, e: &Collective)
    ensures
        final(out)@ == old(out)@ + spec_encode_collective(*e),
{
    match e {
        Collective::Proposed { account, proposal_index, proposal_hash, threshold } => {
            out.push(0);
            push_bytes32(out, account);
            push_u32_le(out, *proposal_index);
            push_bytes32(out, proposal_hash);
            push_u32_le(out, *threshold);
        },
        Collective::Voted { account, proposal_hash, voted, yes, no } => {
            out.push(1);
            push_bytes32(out, account);
            push_bytes32(out, proposal_hash);
            out.push(if *voted { 1 } else { 0 });
            push_u32_le(out, *yes);
            push_u32_le(out, *no);
        },
        Collective::Approved { proposal_hash } => {
            out.push(2);
            push_bytes32(out, proposal_hash);
        },
        Collective::Disapproved { proposal_hash } => {
            out.push(3);
            push_bytes32(out, proposal_hash);
        },
        Collective::Executed { proposal_hash } => {
            out.push(4);
            push_bytes32(out, proposal_hash);
        },
        Collective::MemberExecuted { proposal_hash } => {
            out.push(5);
            push_bytes32(out, proposal_hash);
        },
        Collective::Closed { proposal_hash, yes, no } => {
            out.push(6);
            push_bytes32(out, proposal_hash);
            push_u32_le(out, *yes);
            push_u32_le(out, *no);
        },
    }
    assert(out@ =~= old(out)@ + spec_encode_collective(*e));
}

/// Indexes a collective event: one entry per referenced identifier, each
/// carrying the encoded payload as its value.
pub fn collective_index_event(
    trees: &mut Trees,
    block_number: u32,
    event_index: u32,
    event: &Collective,
) -> (r: Result<(), IndexError>)
    ensures
        r is Ok ==> final(trees)@ == spec_index_entries(
            old(trees)@,
            spec_collective_identifiers(*event),
            block_number,
            event_index,
            spec_encode_event(Event::Collective(*event)),
        ),
{
    let ids = collective_identifiers(event);
    let value = encode_event(&Event::Collective(*event));
    write_entries(trees, &ids, block_number, event_index, &value)
}

/// The collective event denoted by a payload, when the bytes are exactly one
/// variant's encoding.
pub open spec fn spec_decode_collective(s: Seq<u8>) -> Option<Collective> {
    if s.len() == 73 && s[0] == 0u8 {
        Some(
            Collective::Proposed {
                account: bytes32_of(s.subrange(1, 33)),
                proposal_index: spec_u32_from_le(s.subrange(33, 37)),
                proposal_hash: bytes32_of(s.subrange(37, 69)),
                threshold: spec_u32_from_le(s.subrange(69, 73)),
            },
        )
    } else if s.len() == 74 && s[0] == 1u8 {
        Some(
            Collective::Voted {
                account: bytes32_of(s.subrange(1, 33)),
                proposal_hash: bytes32_of(s.subrange(33, 65)),
                voted: s[65] == 1u8,
                yes: spec_u32_from_le(s.subrange(66, 70)),
                no: spec_u32_from_le(s.subrange(70, 74)),
            },
        )
    } else if s.len() == 33 && s[0] == 2u8 {
        Some(Collective::Approved { proposal_hash: bytes32_of(s.subrange(1, 33)) })
    } else if s.len() == 33 && s[0] == 3u8 {
        Some(Collective::Disapproved { proposal_hash: bytes32_of(s.subrange(1, 33)) })
    } else if s.len() == 33 && s[0] == 4u8 {
        Some(Collective::Executed { proposal_hash: bytes32_of(s.subrange(1, 33)) })
    } else if s.len() == 33 && s[0] == 5u8 {
        Some(Collective::MemberExecuted { proposal_hash: bytes32_of(s.subrange(1, 33)) })
    } else if s.len() == 41 && s[0] == 6u8 {
        Some(
            Collective::Closed {
                proposal_hash: bytes32_of(s.subrange(1, 33)),
                yes: spec_u32_from_le(s.subrange(33, 37)),
                no: spec_u32_from_le(s.subrange(37, 41)),
            },
        )
    } else {
        None
    }
}

/// The payload encoding is lossless for this pallet.
pub proof fn lemma_collective_payload_round_trip(e: Collective)
    ensures
        spec_decode_collective(spec_encode_collective(e)) == Some(e),
{
    let s = spec_encode_collective(e);
    vstd::bytes::lemma_auto_spec_u32_to_from_le_bytes();
    match e {
        Collective::Proposed { account, proposal_index, proposal_hash, threshold } => {
            assert(s.len() == 73 && s[0] == 0u8);
            assert(s.subrange(1, 33) =~= account@);
            lemma_bytes32_of_view(account, s.subrange(1, 33));
            assert(s.subrange(33, 37) =~= spec_u32_le(proposal_index));
            lemma_u32_le_round_trip(proposal_index);
            assert(s.subrange(37, 69) =~= proposal_hash@);
            lemma_bytes32_of_view(proposal_hash, s.subrange(37, 69));
            assert(s.subrange(69, 73) =~= spec_u32_le(threshold));
            lemma_u32_le_round_trip(threshold);
        },
        Collective::Voted { account, proposal_hash, voted, yes, no } => {
            assert(s.len() == 74 && s[0] == 1u8);
            assert(s.subrange(1, 33) =~= account@);
            lemma_bytes32_of_view(account, s.subrange(1, 33));
            assert(s.subrange(33, 65) =~= proposal_hash@);
            lemma_bytes32_of_view(proposal_hash, s.subrange(33, 65));
            assert(s[65] == (if voted { 1u8 } else { 0u8 }));
            assert(s.subrange(66, 70) =~= spec_u32_le(yes));
            lemma_u32_le_round_trip(yes);
            assert(s.subrange(70, 74) =~= spec_u32_le(no));
            lemma_u32_le_round_trip(no);
        },
        Collective::Approved { proposal_hash } => {
            assert(s.len() == 33 && s[0] == 2u8);
            assert(s.subrange(1, 33) =~= proposal_hash@);
            lemma_bytes32_of_view(proposal_hash, s.subrange(1, 33));
        },
        Collective::Disapproved { proposal_hash } => {
            assert(s.len() == 33 && s[0] == 3u8);
            assert(s.subrange(1, 33) =~= proposal_hash@);
            lemma_bytes32_of_view(proposal_hash, s.subrange(1, 33));
        },
        Collective::Executed { proposal_hash } => {
            assert(s.len() == 33 && s[0] == 4u8);
            assert(s.subrange(1, 33) =~= proposal_hash@);
            lemma_bytes32_of_view(proposal_hash, s.subrange(1, 33));
        },
        Collective::MemberExecuted { proposal_hash } => {
            assert(s.len() == 33 && s[0] == 5u8);
            assert(s.subrange(1, 33) =~= proposal_hash@);
            lemma_bytes32_of_view(proposal_hash, s.subrange(1, 33));
        },
        Collective::Closed { proposal_hash, yes, no } => {
            assert(s.len() == 41 && s[0] == 6u8);
            assert(s.subrange(1, 33) =~= proposal_hash@);
            lemma_bytes32_of_view(proposal_hash, s.subrange(1, 33));
            assert(s.subrange(33, 37) =~= spec_u32_le(yes));
            lemma_u32_le_round_trip(yes);
            assert(s.subrange(37, 41) =~= spec_u32_le(no));
            lemma_u32_le_round_trip(no);
        },
    }
}

} // verus!
