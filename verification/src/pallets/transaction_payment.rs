//! Transaction-payment events: fees paid by account.

use vstd::prelude::*;

use crate::indexer::{spec_index_entries, write_entries};
use crate::shared::{bytes32_of, lemma_bytes32_of_view, push_bytes32, Key};
use crate::store::{IndexError, Trees};

verus! {

/// The TransactionPayment events the indexer understands, with the fields it extracts.
#[derive(Debug, Clone, Copy, PartialEq)]
pub enum TransactionPayment {
    TransactionFeePaid { who: [u8; 32] },
}

/// The identifiers a TransactionPayment event references, in extraction order.
pub open spec fn spec_transaction_payment_identifiers(e: TransactionPayment) -> Seq<Key> {
    match e {
        TransactionPayment::TransactionFeePaid { who } => seq![Key::AccountId(who)],
    }
}

/// Lists the identifiers referenced by a TransactionPayment event.
pub fn transaction_payment_identifiers(e: &TransactionPayment) -> (r: Vec<Key>)
    ensures
        r@ == spec_transaction_payment_identifiers(*e),
{
    let mut out: Vec<Key> = Vec::new();
    match e {
        TransactionPayment::TransactionFeePaid { who } => out.push(Key::AccountId(*who)),
    }
    assert(out@ =~= spec_transaction_payment_identifiers(*e));
    out
}

/// The compact binary payload of a TransactionPayment event: a variant tag, then the
/// fields in order.
pub open spec fn spec_encode_transaction_payment(e: TransactionPayment) -> Seq<u8> {
    match e {
        TransactionPayment::TransactionFeePaid { who } => seq![0u8] + who@,
    }
}

/// Appends the compact binary payload of a TransactionPayment event.
pub fn encode_transaction_payment(out: &mut Vec<u8>, e: &TransactionPayment)
    ensures
        final(out)@ == old(out)@ + spec_encode_transaction_payment(*e),
{
    match e {
        TransactionPayment::TransactionFeePaid { who } => {
            out.push(0);
            push_bytes32(out, who);
        },
    }
    assert(out@ =~= old(out)@ + spec_encode_transaction_payment(*e));
}

/// Indexes a TransactionPayment event: one entry in the `account_id` tree per referenced
/// account, with no stored payload.
pub fn transaction_payment_index_event(
    trees: &mut Trees,
    block_number: u32,
    event_index: u32,
    event: &TransactionPayment,
) -> (r: Result<(), IndexError>)
    ensures
        r is Ok ==> final(trees)@ == spec_index_entries(
            old(trees)@,
            spec_transaction_payment_identifiers(*event),
            block_number,
            event_index,
            Seq::<u8>::empty(),
        ),
{
    let ids = transaction_payment_identifiers(event);
    let value: Vec<u8> = Vec::new();
    assert(value@ =~= Seq::<u8>::empty());
    write_entries(trees, &ids, block_number, event_index, &value)
}

/// The TransactionPayment event denoted by a payload, when the bytes are exactly one
/// variant's encoding.
pub open spec fn spec_decode_transaction_payment(s: Seq<u8>) -> Option<TransactionPayment> {
    if s.len() == 33 && s[0] == 0u8 {
        Some(TransactionPayment::TransactionFeePaid { who: bytes32_of(s.subrange(1, 33)) })
    } else {
        None
    }
}

/// The payload encoding is lossless for this pallet.
pub proof fn lemma_transaction_payment_payload_round_trip(e: TransactionPayment)
    ensures
        spec_decode_transaction_payment(spec_encode_transaction_payment(e)) == Some(e),
{
    let s = spec_encode_transaction_payment(e);
    match e {
        TransactionPayment::TransactionFeePaid { who } => {
            assert(s.len() == 33 && s[0] == 0u8);
            assert(s.subrange(1, 33) =~= who@);
            lemma_bytes32_of_view(who, s.subrange(1, 33));
        },
    }
}

} // verus!
