//! The identifier kinds, their canonical byte encodings, and the per-kind
//! composite-key entry types.
//!
//! Every identifier kind owns one sorted tree; an entry's on-disk key is the
//! identifier's canonical bytes followed by the big-endian block number and
//! event index (see `codec`).

use vstd::prelude::*;

use crate::codec::{
    spec_composite_key, spec_u32_from_be_bytes, spec_u32_to_be_bytes, push_u32_be_bytes,
    u32_from_be_4, lemma_composite_key_parts, lemma_composite_key_injective,
    lemma_u32_be_bytes_round_trip,
};

verus! {

broadcast use vstd::array::group_array_axioms;

/// A parachain identifier as carried in event fields.
#[derive(Debug, Clone)]
pub struct ParaId(pub u32);

/// The command-line surface: upstream node endpoint and back-fill start
/// height.
#[derive(Debug, Clone)]
pub struct Args {
    pub url: Option<String>,
    pub block_height: Option<u32>,
}

/// Where an event sits in the chain: its block and its position in the
/// block's event list.
#[derive(Debug, Clone, Copy, PartialEq, Eq, Structural)]
pub struct EventLocator {
    pub block_number: u32,
    pub event_index: u32,
}

/// A concrete identifier of one of the closed set of kinds, as sent in
/// queries and extracted from event fields.
#[derive(Debug, Clone, Copy)]
pub enum Key {
    AccountId([u8; 32]),
    AccountIndex(u32),
    AuctionIndex(u32),
    BountyIndex(u32),
    CandidateHash([u8; 32]),
    EraIndex(u32),
    MessageId([u8; 32]),
    ParaId(u32),
    PoolId(u32),
    PreimageHash([u8; 32]),
    ProposalHash([u8; 32]),
    ProposalIndex(u32),
    RefIndex(u32),
    RegistrarIndex(u32),
    SessionIndex(u32),
    TipHash([u8; 32]),
    Variant(u8, u8),
}

/// The canonical byte encoding of an identifier: 32 raw bytes for account
/// ids and hashes, four big-endian bytes for numeric kinds, and the
/// `(pallet, variant)` pair for variant scans.
pub open spec fn spec_key_prefix(k: Key) -> Seq<u8> {
    match k {
        Key::AccountId(a) => a@,
        Key::AccountIndex(n) => spec_u32_to_be_bytes(n),
        Key::AuctionIndex(n) => spec_u32_to_be_bytes(n),
        Key::BountyIndex(n) => spec_u32_to_be_bytes(n),
        Key::CandidateHash(a) => a@,
        Key::EraIndex(n) => spec_u32_to_be_bytes(n),
        Key::MessageId(a) => a@,
        Key::ParaId(n) => spec_u32_to_be_bytes(n),
        Key::PoolId(n) => spec_u32_to_be_bytes(n),
        Key::PreimageHash(a) => a@,
        Key::ProposalHash(a) => a@,
        Key::ProposalIndex(n) => spec_u32_to_be_bytes(n),
        Key::RefIndex(n) => spec_u32_to_be_bytes(n),
        Key::RegistrarIndex(n) => spec_u32_to_be_bytes(n),
        Key::SessionIndex(n) => spec_u32_to_be_bytes(n),
        Key::TipHash(a) => a@,
        Key::Variant(p, v) => seq![p, v],
    }
}

/// Renders an identifier to its canonical byte encoding.
pub fn key_prefix(k: &Key) -> (r: Vec<u8>)
    ensures
        r@ == spec_key_prefix(*k),
{
    match k {
        Key::AccountId(a) => bytes32_to_vec(a),
        Key::AccountIndex(n) => u32_prefix(*n),
        Key::AuctionIndex(n) => u32_prefix(*n),
        Key::BountyIndex(n) => u32_prefix(*n),
        Key::CandidateHash(a) => bytes32_to_vec(a),
        Key::EraIndex(n) => u32_prefix(*n),
        Key::MessageId(a) => bytes32_to_vec(a),
        Key::ParaId(n) => u32_prefix(*n),
        Key::PoolId(n) => u32_prefix(*n),
        Key::PreimageHash(a) => bytes32_to_vec(a),
        Key::ProposalHash(a) => bytes32_to_vec(a),
        Key::ProposalIndex(n) => u32_prefix(*n),
        Key::RefIndex(n) => u32_prefix(*n),
        Key::RegistrarIndex(n) => u32_prefix(*n),
        Key::SessionIndex(n) => u32_prefix(*n),
        Key::TipHash(a) => bytes32_to_vec(a),
        Key::Variant(p, v) => {
            let mut out: Vec<u8> = Vec::new();
            out.push(*p);
            out.push(*v);
            assert(out@ =~= seq![*p, *v]);
            out
        },
    }
}

/// Compares two identifiers for equality, byte for byte.
pub fn key_eq(a: &Key, b: &Key) -> (r: bool)
    ensures
        r <==> *a == *b,
{
    match (a, b) {
        (Key::AccountId(x), Key::AccountId(y)) => bytes32_eq(x, y),
        (Key::AccountIndex(x), Key::AccountIndex(y)) => *x == *y,
        (Key::AuctionIndex(x), Key::AuctionIndex(y)) => *x == *y,
        (Key::BountyIndex(x), Key::BountyIndex(y)) => *x == *y,
        (Key::CandidateHash(x), Key::CandidateHash(y)) => bytes32_eq(x, y),
        (Key::EraIndex(x), Key::EraIndex(y)) => *x == *y,
        (Key::MessageId(x), Key::MessageId(y)) => bytes32_eq(x, y),
        (Key::ParaId(x), Key::ParaId(y)) => *x == *y,
        (Key::PoolId(x), Key::PoolId(y)) => *x == *y,
        (Key::PreimageHash(x), Key::PreimageHash(y)) => bytes32_eq(x, y),
        (Key::ProposalHash(x), Key::ProposalHash(y)) => bytes32_eq(x, y),
        (Key::ProposalIndex(x), Key::ProposalIndex(y)) => *x == *y,
        (Key::RefIndex(x), Key::RefIndex(y)) => *x == *y,
        (Key::RegistrarIndex(x), Key::RegistrarIndex(y)) => *x == *y,
        (Key::SessionIndex(x), Key::SessionIndex(y)) => *x == *y,
        (Key::TipHash(x), Key::TipHash(y)) => bytes32_eq(x, y),
        (Key::Variant(p1, v1), Key::Variant(p2, v2)) => *p1 == *p2 && *v1 == *v2,
        _ => false,
    }
}

/// Compares two 32-byte identifiers.
pub fn bytes32_eq(a: &[u8; 32], b: &[u8; 32]) -> (r: bool)
    ensures
        r <==> a@ == b@,
        r <==> *a == *b,
{
    let mut i: usize = 0;
    while i < 32
        invariant
            i <= 32,
            forall|j: int| 0 <= j < i ==> a@[j] == b@[j],
        decreases 32 - i,
    {
        if a[i] != b[i] {
            assert(a@ != b@);
            return false;
        }
        i = i + 1;
    }
    assert(a@ =~= b@);
    assert(*a =~= *b);
    true
}

/// Copies a 32-byte identifier into a fresh vector.
pub fn bytes32_to_vec(a: &[u8; 32]) -> (r: Vec<u8>)
    ensures
        r@ == a@,
{
    let mut out: Vec<u8> = Vec::new();
    push_bytes32(&mut out, a);
    assert(out@ =~= a@);
    out
}

/// Appends a 32-byte identifier to `out`.
pub fn push_bytes32(out: &mut Vec<u8>, a: &[u8; 32])
    ensures
        final(out)@ == old(out)@ + a@,
{
    let mut i: usize = 0;
    while i < 32
        invariant
            i <= 32,
            out@ =~= old(out)@ + a@.take(i as int),
        decreases 32 - i,
    {
        out.push(a[i]);
        assert(out@ =~= old(out)@ + a@.take(i as int) + seq![a@[i as int]]);
        assert(old(out)@ + a@.take(i as int) + seq![a@[i as int]] =~= old(out)@ + a@.take(
            i as int + 1,
        ));
        i = i + 1;
    }
    assert(a@.take(32) =~= a@);
}

/// The canonical byte encoding of a numeric identifier.
fn u32_prefix(n: u32) -> (r: Vec<u8>)
    ensures
        r@ == spec_u32_to_be_bytes(n),
{
    let mut out: Vec<u8> = Vec::new();
    push_u32_be_bytes(&mut out, n);
    assert(out@ =~= spec_u32_to_be_bytes(n));
    out
}

/// The 32-byte array whose view is `s` (for `s` of length 32).
pub open spec fn bytes32_of(s: Seq<u8>) -> [u8; 32] {
    choose|arr: [u8; 32]| arr@ == s
}

/// A 32-byte array is determined by its view.
pub proof fn lemma_bytes32_of_view(arr: [u8; 32], s: Seq<u8>)
    requires
        arr@ == s,
    ensures
        bytes32_of(s) == arr,
{
    assert(exists|a: [u8; 32]| a@ == s) by {
        assert(arr@ == s);
    }
    let c = bytes32_of(s);
    assert(c@ == s);
    assert(c =~= arr);
}

/// Copies the first 32 bytes of a vector into a fixed-size array.
pub fn vector_as_u8_32_array(vector: &Vec<u8>) -> (arr: [u8; 32])
    requires
        vector@.len() >= 32,
    ensures
        arr@ == vector@.take(32),
{
    let mut arr = [0u8; 32];
    let mut i: usize = 0;
    while i < 32
        invariant
            i <= 32,
            vector@.len() >= 32,
            arr@.len() == 32,
            forall|j: int| 0 <= j < i ==> arr@[j] == vector@[j],
        decreases 32 - i,
    {
        arr[i] = vector[i];
        i = i + 1;
    }
    assert(arr@ =~= vector@.take(32));
    arr
}

/// Copies the first four bytes of a vector into a fixed-size array.
pub fn vector_as_u8_4_array(vector: &Vec<u8>) -> (arr: [u8; 4])
    requires
        vector@.len() >= 4,
    ensures
        arr@ == vector@.take(4),
{
    let mut arr = [0u8; 4];
    let mut i: usize = 0;
    while i < 4
        invariant
            i <= 4,
            vector@.len() >= 4,
            arr@.len() == 4,
            forall|j: int| 0 <= j < i ==> arr@[j] == vector@[j],
        decreases 4 - i,
    {
        arr[i] = vector[i];
        i = i + 1;
    }
    assert(arr@ =~= vector@.take(4));
    arr
}

/// An entry of the `account_id` tree: a 32-byte identifier and the locator of the
/// event that referenced it.
#[derive(Debug, PartialEq)]
pub struct AccountIdKey {
    pub account_id: [u8; 32],
    pub block_number: u32,
    pub i: u32,
}

impl AccountIdKey {
    /// The on-disk composite key for this entry.
    pub open spec fn spec_serialize(self) -> Seq<u8> {
        spec_composite_key(self.account_id@, self.block_number, self.i)
    }

    /// The entry denoted by the first forty bytes.
    pub open spec fn spec_unserialize(vec: Seq<u8>) -> AccountIdKey {
        AccountIdKey {
            account_id: bytes32_of(vec.subrange(0, 32)),
            block_number: spec_u32_from_be_bytes(vec.subrange(32, 36)),
            i: spec_u32_from_be_bytes(vec.subrange(36, 40)),
        }
    }

    pub fn serialize(&self) -> (r: Vec<u8>)
        ensures
            r@ == self.spec_serialize(),
    {
        let mut out: Vec<u8> = Vec::new();
        push_bytes32(&mut out, &self.account_id);
        push_u32_be_bytes(&mut out, self.block_number);
        push_u32_be_bytes(&mut out, self.i);
        assert(out@ =~= self.spec_serialize());
        out
    }

    pub fn unserialize(vec: Vec<u8>) -> (r: Self)
        requires
            vec@.len() >= 40,
        ensures
            r == Self::spec_unserialize(vec@),
    {
        let account_id = vector_as_u8_32_array(&vec);
        let block_number = u32_from_be_4(vec[32], vec[33], vec[34], vec[35]);
        let i = u32_from_be_4(vec[36], vec[37], vec[38], vec[39]);
        proof {
            assert(vec@.take(32) =~= vec@.subrange(0, 32));
            assert(seq![vec@[32], vec@[33], vec@[34], vec@[35]] =~= vec@.subrange(32, 36));
            assert(seq![vec@[36], vec@[37], vec@[38], vec@[39]] =~= vec@.subrange(36, 40));
            lemma_bytes32_of_view(account_id, vec@.subrange(0, 32));
        }
        AccountIdKey { account_id, block_number, i }
    }

    /// Key round-trip: decoding a serialized entry restores it, and the
    /// serialization is injective.
    pub proof fn lemma_round_trip(k1: Self, k2: Self)
        ensures
            Self::spec_unserialize(k1.spec_serialize()) == k1,
            k1.spec_serialize() == k2.spec_serialize() ==> k1 == k2,
    {
        lemma_composite_key_parts(k1.account_id@, k1.block_number, k1.i);
        assert(k1.spec_serialize().take(32) =~= k1.spec_serialize().subrange(0, 32));
        lemma_bytes32_of_view(k1.account_id, k1.spec_serialize().subrange(0, 32));
        if k1.spec_serialize() == k2.spec_serialize() {
            lemma_composite_key_parts(k2.account_id@, k2.block_number, k2.i);
            lemma_composite_key_injective(
                k1.account_id@,
                k1.block_number,
                k1.i,
                k2.account_id@,
                k2.block_number,
                k2.i,
            );
            assert(k1.account_id =~= k2.account_id);
        }
    }
}

/// An entry of the `account_index` tree: a numeric identifier (stored big-endian) and
/// the locator of the event that referenced it.
#[derive(Debug, PartialEq)]
pub struct AccountIndexKey {
    pub account_index: u32,
    pub block_number: u32,
    pub i: u32,
}

impl AccountIndexKey {
    /// The on-disk composite key for this entry.
    pub open spec fn spec_serialize(self) -> Seq<u8> {
        spec_composite_key(spec_u32_to_be_bytes(self.account_index), self.block_number, self.i)
    }

    /// The entry denoted by the first twelve bytes.
    pub open spec fn spec_unserialize(vec: Seq<u8>) -> AccountIndexKey {
        AccountIndexKey {
            account_index: spec_u32_from_be_bytes(vec.subrange(0, 4)),
            block_number: spec_u32_from_be_bytes(vec.subrange(4, 8)),
            i: spec_u32_from_be_bytes(vec.subrange(8, 12)),
        }
    }

    pub fn serialize(&self) -> (r: Vec<u8>)
        ensures
            r@ == self.spec_serialize(),
    {
        let mut out: Vec<u8> = Vec::new();
        push_u32_be_bytes(&mut out, self.account_index);
        push_u32_be_bytes(&mut out, self.block_number);
        push_u32_be_bytes(&mut out, self.i);
        assert(out@ =~= self.spec_serialize());
        out
    }

    pub fn unserialize(vec: Vec<u8>) -> (r: Self)
        requires
            vec@.len() >= 12,
        ensures
            r == Self::spec_unserialize(vec@),
    {
        let account_index = u32_from_be_4(vec[0], vec[1], vec[2], vec[3]);
        let block_number = u32_from_be_4(vec[4], vec[5], vec[6], vec[7]);
        let i = u32_from_be_4(vec[8], vec[9], vec[10], vec[11]);
        proof {
            assert(seq![vec@[0], vec@[1], vec@[2], vec@[3]] =~= vec@.subrange(0, 4));
            assert(seq![vec@[4], vec@[5], vec@[6], vec@[7]] =~= vec@.subrange(4, 8));
            assert(seq![vec@[8], vec@[9], vec@[10], vec@[11]] =~= vec@.subrange(8, 12));
        }
        AccountIndexKey { account_index, block_number, i }
    }

    /// Key round-trip: decoding a serialized entry restores it, and the
    /// serialization is injective.
    pub proof fn lemma_round_trip(k1: Self, k2: Self)
        ensures
            Self::spec_unserialize(k1.spec_serialize()) == k1,
            k1.spec_serialize() == k2.spec_serialize() ==> k1 == k2,
    {
        lemma_composite_key_parts(spec_u32_to_be_bytes(k1.account_index), k1.block_number, k1.i);
        assert(k1.spec_serialize().take(4) =~= k1.spec_serialize().subrange(0, 4));
        lemma_u32_be_bytes_round_trip(k1.account_index);
        if k1.spec_serialize() == k2.spec_serialize() {
            lemma_composite_key_parts(spec_u32_to_be_bytes(k2.account_index), k2.block_number, k2.i);
            lemma_u32_be_bytes_round_trip(k2.account_index);
        }
    }
}

/// An entry of the `auction_index` tree: a numeric identifier (stored big-endian) and
/// the locator of the event that referenced it.
#[derive(Debug, PartialEq)]
pub struct AuctionIndexKey {
    pub auction_index: u32,
    pub block_number: u32,
    pub i: u32,
}

impl AuctionIndexKey {
    /// The on-disk composite key for this entry.
    pub open spec fn spec_serialize(self) -> Seq<u8> {
        spec_composite_key(spec_u32_to_be_bytes(self.auction_index), self.block_number, self.i)
    }

    /// The entry denoted by the first twelve bytes.
    pub open spec fn spec_unserialize(vec: Seq<u8>) -> AuctionIndexKey {
        AuctionIndexKey {
            auction_index: spec_u32_from_be_bytes(vec.subrange(0, 4)),
            block_number: spec_u32_from_be_bytes(vec.subrange(4, 8)),
            i: spec_u32_from_be_bytes(vec.subrange(8, 12)),
        }
    }

    pub fn serialize(&self) -> (r: Vec<u8>)
        ensures
            r@ == self.spec_serialize(),
    {
        let mut out: Vec<u8> = Vec::new();
        push_u32_be_bytes(&mut out, self.auction_index);
        push_u32_be_bytes(&mut out, self.block_number);
        push_u32_be_bytes(&mut out, self.i);
        assert(out@ =~= self.spec_serialize());
        out
    }

    pub fn unserialize(vec: Vec<u8>) -> (r: Self)
        requires
            vec@.len() >= 12,
        ensures
            r == Self::spec_unserialize(vec@),
    {
        let auction_index = u32_from_be_4(vec[0], vec[1], vec[2], vec[3]);
        let block_number = u32_from_be_4(vec[4], vec[5], vec[6], vec[7]);
        let i = u32_from_be_4(vec[8], vec[9], vec[10], vec[11]);
        proof {
            assert(seq![vec@[0], vec@[1], vec@[2], vec@[3]] =~= vec@.subrange(0, 4));
            assert(seq![vec@[4], vec@[5], vec@[6], vec@[7]] =~= vec@.subrange(4, 8));
            assert(seq![vec@[8], vec@[9], vec@[10], vec@[11]] =~= vec@.subrange(8, 12));
        }
        AuctionIndexKey { auction_index, block_number, i }
    }

    /// Key round-trip: decoding a serialized entry restores it, and the
    /// serialization is injective.
    pub proof fn lemma_round_trip(k1: Self, k2: Self)
        ensures
            Self::spec_unserialize(k1.spec_serialize()) == k1,
            k1.spec_serialize() == k2.spec_serialize() ==> k1 == k2,
    {
        lemma_composite_key_parts(spec_u32_to_be_bytes(k1.auction_index), k1.block_number, k1.i);
        assert(k1.spec_serialize().take(4) =~= k1.spec_serialize().subrange(0, 4));
        lemma_u32_be_bytes_round_trip(k1.auction_index);
        if k1.spec_serialize() == k2.spec_serialize() {
            lemma_composite_key_parts(spec_u32_to_be_bytes(k2.auction_index), k2.block_number, k2.i);
            lemma_u32_be_bytes_round_trip(k2.auction_index);
        }
    }
}

/// An entry of the `bounty_index` tree: a numeric identifier (stored big-endian) and
/// the locator of the event that referenced it.
#[derive(Debug, PartialEq)]
pub struct BountyIndexKey {
    pub bounty_index: u32,
    pub block_number: u32,
    pub i: u32,
}

impl BountyIndexKey {
    /// The on-disk composite key for this entry.
    pub open spec fn spec_serialize(self) -> Seq<u8> {
        spec_composite_key(spec_u32_to_be_bytes(self.bounty_index), self.block_number, self.i)
    }

    /// The entry denoted by the first twelve bytes.
    pub open spec fn spec_unserialize(vec: Seq<u8>) -> BountyIndexKey {
        BountyIndexKey {
            bounty_index: spec_u32_from_be_bytes(vec.subrange(0, 4)),
            block_number: spec_u32_from_be_bytes(vec.subrange(4, 8)),
            i: spec_u32_from_be_bytes(vec.subrange(8, 12)),
        }
    }

    pub fn serialize(&self) -> (r: Vec<u8>)
        ensures
            r@ == self.spec_serialize(),
    {
        let mut out: Vec<u8> = Vec::new();
        push_u32_be_bytes(&mut out, self.bounty_index);
        push_u32_be_bytes(&mut out, self.block_number);
        push_u32_be_bytes(&mut out, self.i);
        assert(out@ =~= self.spec_serialize());
        out
    }

    pub fn unserialize(vec: Vec<u8>) -> (r: Self)
        requires
            vec@.len() >= 12,
        ensures
            r == Self::spec_unserialize(vec@),
    {
        let bounty_index = u32_from_be_4(vec[0], vec[1], vec[2], vec[3]);
        let block_number = u32_from_be_4(vec[4], vec[5], vec[6], vec[7]);
        let i = u32_from_be_4(vec[8], vec[9], vec[10], vec[11]);
        proof {
            assert(seq![vec@[0], vec@[1], vec@[2], vec@[3]] =~= vec@.subrange(0, 4));
            assert(seq![vec@[4], vec@[5], vec@[6], vec@[7]] =~= vec@.subrange(4, 8));
            assert(seq![vec@[8], vec@[9], vec@[10], vec@[11]] =~= vec@.subrange(8, 12));
        }
        BountyIndexKey { bounty_index, block_number, i }
    }

    /// Key round-trip: decoding a serialized entry restores it, and the
    /// serialization is injective.
    pub proof fn lemma_round_trip(k1: Self, k2: Self)
        ensures
            Self::spec_unserialize(k1.spec_serialize()) == k1,
            k1.spec_serialize() == k2.spec_serialize() ==> k1 == k2,
    {
        lemma_composite_key_parts(spec_u32_to_be_bytes(k1.bounty_index), k1.block_number, k1.i);
        assert(k1.spec_serialize().take(4) =~= k1.spec_serialize().subrange(0, 4));
        lemma_u32_be_bytes_round_trip(k1.bounty_index);
        if k1.spec_serialize() == k2.spec_serialize() {
            lemma_composite_key_parts(spec_u32_to_be_bytes(k2.bounty_index), k2.block_number, k2.i);
            lemma_u32_be_bytes_round_trip(k2.bounty_index);
        }
    }
}

/// An entry of the `candidate_hash` tree: a 32-byte identifier and the locator of the
/// event that referenced it.
#[derive(Debug, PartialEq)]
pub struct CandidateHashKey {
    pub candidate_hash: [u8; 32],
    pub block_number: u32,
    pub i: u32,
}

impl CandidateHashKey {
    /// The on-disk composite key for this entry.
    pub open spec fn spec_serialize(self) -> Seq<u8> {
        spec_composite_key(self.candidate_hash@, self.block_number, self.i)
    }

    /// The entry denoted by the first forty bytes.
    pub open spec fn spec_unserialize(vec: Seq<u8>) -> CandidateHashKey {
        CandidateHashKey {
            candidate_hash: bytes32_of(vec.subrange(0, 32)),
            block_number: spec_u32_from_be_bytes(vec.subrange(32, 36)),
            i: spec_u32_from_be_bytes(vec.subrange(36, 40)),
        }
    }

    pub fn serialize(&self) -> (r: Vec<u8>)
        ensures
            r@ == self.spec_serialize(),
    {
        let mut out: Vec<u8> = Vec::new();
        push_bytes32(&mut out, &self.candidate_hash);
        push_u32_be_bytes(&mut out, self.block_number);
        push_u32_be_bytes(&mut out, self.i);
        assert(out@ =~= self.spec_serialize());
        out
    }

    pub fn unserialize(vec: Vec<u8>) -> (r: Self)
        requires
            vec@.len() >= 40,
        ensures
            r == Self::spec_unserialize(vec@),
    {
        let candidate_hash = vector_as_u8_32_array(&vec);
        let block_number = u32_from_be_4(vec[32], vec[33], vec[34], vec[35]);
        let i = u32_from_be_4(vec[36], vec[37], vec[38], vec[39]);
        proof {
            assert(vec@.take(32) =~= vec@.subrange(0, 32));
            assert(seq![vec@[32], vec@[33], vec@[34], vec@[35]] =~= vec@.subrange(32, 36));
            assert(seq![vec@[36], vec@[37], vec@[38], vec@[39]] =~= vec@.subrange(36, 40));
            lemma_bytes32_of_view(candidate_hash, vec@.subrange(0, 32));
        }
        CandidateHashKey { candidate_hash, block_number, i }
    }

    /// Key round-trip: decoding a serialized entry restores it, and the
    /// serialization is injective.
    pub proof fn lemma_round_trip(k1: Self, k2: Self)
        ensures
            Self::spec_unserialize(k1.spec_serialize()) == k1,
            k1.spec_serialize() == k2.spec_serialize() ==> k1 == k2,
    {
        lemma_composite_key_parts(k1.candidate_hash@, k1.block_number, k1.i);
        assert(k1.spec_serialize().take(32) =~= k1.spec_serialize().subrange(0, 32));
        lemma_bytes32_of_view(k1.candidate_hash, k1.spec_serialize().subrange(0, 32));
        if k1.spec_serialize() == k2.spec_serialize() {
            lemma_composite_key_parts(k2.candidate_hash@, k2.block_number, k2.i);
            lemma_composite_key_injective(
                k1.candidate_hash@,
                k1.block_number,
                k1.i,
                k2.candidate_hash@,
                k2.block_number,
                k2.i,
            );
            assert(k1.candidate_hash =~= k2.candidate_hash);
        }
    }
}

/// An entry of the `message_id` tree: a 32-byte identifier and the locator of the
/// event that referenced it.
#[derive(Debug, PartialEq)]
pub struct MessageIdKey {
    pub message_id: [u8; 32],
    pub block_number: u32,
    pub i: u32,
}

impl MessageIdKey {
    /// The on-disk composite key for this entry.
    pub open spec fn spec_serialize(self) -> Seq<u8> {
        spec_composite_key(self.message_id@, self.block_number, self.i)
    }

    /// The entry denoted by the first forty bytes.
    pub open spec fn spec_unserialize(vec: Seq<u8>) -> MessageIdKey {
        MessageIdKey {
            message_id: bytes32_of(vec.subrange(0, 32)),
            block_number: spec_u32_from_be_bytes(vec.subrange(32, 36)),
            i: spec_u32_from_be_bytes(vec.subrange(36, 40)),
        }
    }

    pub fn serialize(&self) -> (r: Vec<u8>)
        ensures
            r@ == self.spec_serialize(),
    {
        let mut out: Vec<u8> = Vec::new();
        push_bytes32(&mut out, &self.message_id);
        push_u32_be_bytes(&mut out, self.block_number);
        push_u32_be_bytes(&mut out, self.i);
        assert(out@ =~= self.spec_serialize());
        out
    }

    pub fn unserialize(vec: Vec<u8>) -> (r: Self)
        requires
            vec@.len() >= 40,
        ensures
            r == Self::spec_unserialize(vec@),
    {
        let message_id = vector_as_u8_32_array(&vec);
        let block_number = u32_from_be_4(vec[32], vec[33], vec[34], vec[35]);
        let i = u32_from_be_4(vec[36], vec[37], vec[38], vec[39]);
        proof {
            assert(vec@.take(32) =~= vec@.subrange(0, 32));
            assert(seq![vec@[32], vec@[33], vec@[34], vec@[35]] =~= vec@.subrange(32, 36));
            assert(seq![vec@[36], vec@[37], vec@[38], vec@[39]] =~= vec@.subrange(36, 40));
            lemma_bytes32_of_view(message_id, vec@.subrange(0, 32));
        }
        MessageIdKey { message_id, block_number, i }
    }

    /// Key round-trip: decoding a serialized entry restores it, and the
    /// serialization is injective.
    pub proof fn lemma_round_trip(k1: Self, k2: Self)
        ensures
            Self::spec_unserialize(k1.spec_serialize()) == k1,
            k1.spec_serialize() == k2.spec_serialize() ==> k1 == k2,
    {
        lemma_composite_key_parts(k1.message_id@, k1.block_number, k1.i);
        assert(k1.spec_serialize().take(32) =~= k1.spec_serialize().subrange(0, 32));
        lemma_bytes32_of_view(k1.message_id, k1.spec_serialize().subrange(0, 32));
        if k1.spec_serialize() == k2.spec_serialize() {
            lemma_composite_key_parts(k2.message_id@, k2.block_number, k2.i);
            lemma_composite_key_injective(
                k1.message_id@,
                k1.block_number,
                k1.i,
                k2.message_id@,
                k2.block_number,
                k2.i,
            );
            assert(k1.message_id =~= k2.message_id);
        }
    }
}

/// An entry of the `para_id` tree: a numeric identifier (stored big-endian) and
/// the locator of the event that referenced it.
#[derive(Debug, PartialEq)]
pub struct ParaIdKey {
    pub para_id: u32,
    pub block_number: u32,
    pub i: u32,
}

impl ParaIdKey {
    /// The on-disk composite key for this entry.
    pub open spec fn spec_serialize(self) -> Seq<u8> {
        spec_composite_key(spec_u32_to_be_bytes(self.para_id), self.block_number, self.i)
    }

    /// The entry denoted by the first twelve bytes.
    pub open spec fn spec_unserialize(vec: Seq<u8>) -> ParaIdKey {
        ParaIdKey {
            para_id: spec_u32_from_be_bytes(vec.subrange(0, 4)),
            block_number: spec_u32_from_be_bytes(vec.subrange(4, 8)),
            i: spec_u32_from_be_bytes(vec.subrange(8, 12)),
        }
    }

    pub fn serialize(&self) -> (r: Vec<u8>)
        ensures
            r@ == self.spec_serialize(),
    {
        let mut out: Vec<u8> = Vec::new();
        push_u32_be_bytes(&mut out, self.para_id);
        push_u32_be_bytes(&mut out, self.block_number);
        push_u32_be_bytes(&mut out, self.i);
        assert(out@ =~= self.spec_serialize());
        out
    }

    pub fn unserialize(vec: Vec<u8>) -> (r: Self)
        requires
            vec@.len() >= 12,
        ensures
            r == Self::spec_unserialize(vec@),
    {
        let para_id = u32_from_be_4(vec[0], vec[1], vec[2], vec[3]);
        let block_number = u32_from_be_4(vec[4], vec[5], vec[6], vec[7]);
        let i = u32_from_be_4(vec[8], vec[9], vec[10], vec[11]);
        proof {
            assert(seq![vec@[0], vec@[1], vec@[2], vec@[3]] =~= vec@.subrange(0, 4));
            assert(seq![vec@[4], vec@[5], vec@[6], vec@[7]] =~= vec@.subrange(4, 8));
            assert(seq![vec@[8], vec@[9], vec@[10], vec@[11]] =~= vec@.subrange(8, 12));
        }
        ParaIdKey { para_id, block_number, i }
    }

    /// Key round-trip: decoding a serialized entry restores it, and the
    /// serialization is injective.
    pub proof fn lemma_round_trip(k1: Self, k2: Self)
        ensures
            Self::spec_unserialize(k1.spec_serialize()) == k1,
            k1.spec_serialize() == k2.spec_serialize() ==> k1 == k2,
    {
        lemma_composite_key_parts(spec_u32_to_be_bytes(k1.para_id), k1.block_number, k1.i);
        assert(k1.spec_serialize().take(4) =~= k1.spec_serialize().subrange(0, 4));
        lemma_u32_be_bytes_round_trip(k1.para_id);
        if k1.spec_serialize() == k2.spec_serialize() {
            lemma_composite_key_parts(spec_u32_to_be_bytes(k2.para_id), k2.block_number, k2.i);
            lemma_u32_be_bytes_round_trip(k2.para_id);
        }
    }
}

/// An entry of the `pool_id` tree: a numeric identifier (stored big-endian) and
/// the locator of the event that referenced it.
#[derive(Debug, PartialEq)]
pub struct PoolIdKey {
    pub pool_id: u32,
    pub block_number: u32,
    pub i: u32,
}

impl PoolIdKey {
    /// The on-disk composite key for this entry.
    pub open spec fn spec_serialize(self) -> Seq<u8> {
        spec_composite_key(spec_u32_to_be_bytes(self.pool_id), self.block_number, self.i)
    }

    /// The entry denoted by the first twelve bytes.
    pub open spec fn spec_unserialize(vec: Seq<u8>) -> PoolIdKey {
        PoolIdKey {
            pool_id: spec_u32_from_be_bytes(vec.subrange(0, 4)),
            block_number: spec_u32_from_be_bytes(vec.subrange(4, 8)),
            i: spec_u32_from_be_bytes(vec.subrange(8, 12)),
        }
    }

    pub fn serialize(&self) -> (r: Vec<u8>)
        ensures
            r@ == self.spec_serialize(),
    {
        let mut out: Vec<u8> = Vec::new();
        push_u32_be_bytes(&mut out, self.pool_id);
        push_u32_be_bytes(&mut out, self.block_number);
        push_u32_be_bytes(&mut out, self.i);
        assert(out@ =~= self.spec_serialize());
        out
    }

    pub fn unserialize(vec: Vec<u8>) -> (r: Self)
        requires
            vec@.len() >= 12,
        ensures
            r == Self::spec_unserialize(vec@),
    {
        let pool_id = u32_from_be_4(vec[0], vec[1], vec[2], vec[3]);
        let block_number = u32_from_be_4(vec[4], vec[5], vec[6], vec[7]);
        let i = u32_from_be_4(vec[8], vec[9], vec[10], vec[11]);
        proof {
            assert(seq![vec@[0], vec@[1], vec@[2], vec@[3]] =~= vec@.subrange(0, 4));
            assert(seq![vec@[4], vec@[5], vec@[6], vec@[7]] =~= vec@.subrange(4, 8));
            assert(seq![vec@[8], vec@[9], vec@[10], vec@[11]] =~= vec@.subrange(8, 12));
        }
        PoolIdKey { pool_id, block_number, i }
    }

    /// Key round-trip: decoding a serialized entry restores it, and the
    /// serialization is injective.
    pub proof fn lemma_round_trip(k1: Self, k2: Self)
        ensures
            Self::spec_unserialize(k1.spec_serialize()) == k1,
            k1.spec_serialize() == k2.spec_serialize() ==> k1 == k2,
    {
        lemma_composite_key_parts(spec_u32_to_be_bytes(k1.pool_id), k1.block_number, k1.i);
        assert(k1.spec_serialize().take(4) =~= k1.spec_serialize().subrange(0, 4));
        lemma_u32_be_bytes_round_trip(k1.pool_id);
        if k1.spec_serialize() == k2.spec_serialize() {
            lemma_composite_key_parts(spec_u32_to_be_bytes(k2.pool_id), k2.block_number, k2.i);
            lemma_u32_be_bytes_round_trip(k2.pool_id);
        }
    }
}

/// An entry of the `ref_index` tree: a numeric identifier (stored big-endian) and
/// the locator of the event that referenced it.
#[derive(Debug, PartialEq)]
pub struct RefIndexKey {
    pub ref_index: u32,
    pub block_number: u32,
    pub i: u32,
}

impl RefIndexKey {
    /// The on-disk composite key for this entry.
    pub open spec fn spec_serialize(self) -> Seq<u8> {
        spec_composite_key(spec_u32_to_be_bytes(self.ref_index), self.block_number, self.i)
    }

    /// The entry denoted by the first twelve bytes.
    pub open spec fn spec_unserialize(vec: Seq<u8>) -> RefIndexKey {
        RefIndexKey {
            ref_index: spec_u32_from_be_bytes(vec.subrange(0, 4)),
            block_number: spec_u32_from_be_bytes(vec.subrange(4, 8)),
            i: spec_u32_from_be_bytes(vec.subrange(8, 12)),
        }
    }

    pub fn serialize(&self) -> (r: Vec<u8>)
        ensures
            r@ == self.spec_serialize(),
    {
        let mut out: Vec<u8> = Vec::new();
        push_u32_be_bytes(&mut out, self.ref_index);
        push_u32_be_bytes(&mut out, self.block_number);
        push_u32_be_bytes(&mut out, self.i);
        assert(out@ =~= self.spec_serialize());
        out
    }

    pub fn unserialize(vec: Vec<u8>) -> (r: Self)
        requires
            vec@.len() >= 12,
        ensures
            r == Self::spec_unserialize(vec@),
    {
        let ref_index = u32_from_be_4(vec[0], vec[1], vec[2], vec[3]);
        let block_number = u32_from_be_4(vec[4], vec[5], vec[6], vec[7]);
        let i = u32_from_be_4(vec[8], vec[9], vec[10], vec[11]);
        proof {
            assert(seq![vec@[0], vec@[1], vec@[2], vec@[3]] =~= vec@.subrange(0, 4));
            assert(seq![vec@[4], vec@[5], vec@[6], vec@[7]] =~= vec@.subrange(4, 8));
            assert(seq![vec@[8], vec@[9], vec@[10], vec@[11]] =~= vec@.subrange(8, 12));
        }
        RefIndexKey { ref_index, block_number, i }
    }

    /// Key round-trip: decoding a serialized entry restores it, and the
    /// serialization is injective.
    pub proof fn lemma_round_trip(k1: Self, k2: Self)
        ensures
            Self::spec_unserialize(k1.spec_serialize()) == k1,
            k1.spec_serialize() == k2.spec_serialize() ==> k1 == k2,
    {
        lemma_composite_key_parts(spec_u32_to_be_bytes(k1.ref_index), k1.block_number, k1.i);
        assert(k1.spec_serialize().take(4) =~= k1.spec_serialize().subrange(0, 4));
        lemma_u32_be_bytes_round_trip(k1.ref_index);
        if k1.spec_serialize() == k2.spec_serialize() {
            lemma_composite_key_parts(spec_u32_to_be_bytes(k2.ref_index), k2.block_number, k2.i);
            lemma_u32_be_bytes_round_trip(k2.ref_index);
        }
    }
}

/// An entry of the `registrar_index` tree: a numeric identifier (stored big-endian) and
/// the locator of the event that referenced it.
#[derive(Debug, PartialEq)]
pub struct RegistrarIndexKey {
    pub registrar_index: u32,
    pub block_number: u32,
    pub i: u32,
}

impl RegistrarIndexKey {
    /// The on-disk composite key for this entry.
    pub open spec fn spec_serialize(self) -> Seq<u8> {
        spec_composite_key(spec_u32_to_be_bytes(self.registrar_index), self.block_number, self.i)
    }

    /// The entry denoted by the first twelve bytes.
    pub open spec fn spec_unserialize(vec: Seq<u8>) -> RegistrarIndexKey {
        RegistrarIndexKey {
            registrar_index: spec_u32_from_be_bytes(vec.subrange(0, 4)),
            block_number: spec_u32_from_be_bytes(vec.subrange(4, 8)),
            i: spec_u32_from_be_bytes(vec.subrange(8, 12)),
        }
    }

    pub fn serialize(&self) -> (r: Vec<u8>)
        ensures
            r@ == self.spec_serialize(),
    {
        let mut out: Vec<u8> = Vec::new();
        push_u32_be_bytes(&mut out, self.registrar_index);
        push_u32_be_bytes(&mut out, self.block_number);
        push_u32_be_bytes(&mut out, self.i);
        assert(out@ =~= self.spec_serialize());
        out
    }

    pub fn unserialize(vec: Vec<u8>) -> (r: Self)
        requires
            vec@.len() >= 12,
        ensures
            r == Self::spec_unserialize(vec@),
    {
        let registrar_index = u32_from_be_4(vec[0], vec[1], vec[2], vec[3]);
        let block_number = u32_from_be_4(vec[4], vec[5], vec[6], vec[7]);
        let i = u32_from_be_4(vec[8], vec[9], vec[10], vec[11]);
        proof {
            assert(seq![vec@[0], vec@[1], vec@[2], vec@[3]] =~= vec@.subrange(0, 4));
            assert(seq![vec@[4], vec@[5], vec@[6], vec@[7]] =~= vec@.subrange(4, 8));
            assert(seq![vec@[8], vec@[9], vec@[10], vec@[11]] =~= vec@.subrange(8, 12));
        }
        RegistrarIndexKey { registrar_index, block_number, i }
    }

    /// Key round-trip: decoding a serialized entry restores it, and the
    /// serialization is injective.
    pub proof fn lemma_round_trip(k1: Self, k2: Self)
        ensures
            Self::spec_unserialize(k1.spec_serialize()) == k1,
            k1.spec_serialize() == k2.spec_serialize() ==> k1 == k2,
    {
        lemma_composite_key_parts(spec_u32_to_be_bytes(k1.registrar_index), k1.block_number, k1.i);
        assert(k1.spec_serialize().take(4) =~= k1.spec_serialize().subrange(0, 4));
        lemma_u32_be_bytes_round_trip(k1.registrar_index);
        if k1.spec_serialize() == k2.spec_serialize() {
            lemma_composite_key_parts(spec_u32_to_be_bytes(k2.registrar_index), k2.block_number, k2.i);
            lemma_u32_be_bytes_round_trip(k2.registrar_index);
        }
    }
}

/// An entry of the `proposal_hash` tree: a 32-byte identifier and the locator of the
/// event that referenced it.
#[derive(Debug, PartialEq)]
pub struct ProposalHashKey {
    pub proposal_hash: [u8; 32],
    pub block_number: u32,
    pub i: u32,
}

impl ProposalHashKey {
    /// The on-disk composite key for this entry.
    pub open spec fn spec_serialize(self) -> Seq<u8> {
        spec_composite_key(self.proposal_hash@, self.block_number, self.i)
    }

    /// The entry denoted by the first forty bytes.
    pub open spec fn spec_unserialize(vec: Seq<u8>) -> ProposalHashKey {
        ProposalHashKey {
            proposal_hash: bytes32_of(vec.subrange(0, 32)),
            block_number: spec_u32_from_be_bytes(vec.subrange(32, 36)),
            i: spec_u32_from_be_bytes(vec.subrange(36, 40)),
        }
    }

    pub fn serialize(&self) -> (r: Vec<u8>)
        ensures
            r@ == self.spec_serialize(),
    {
        let mut out: Vec<u8> = Vec::new();
        push_bytes32(&mut out, &self.proposal_hash);
        push_u32_be_bytes(&mut out, self.block_number);
        push_u32_be_bytes(&mut out, self.i);
        assert(out@ =~= self.spec_serialize());
        out
    }

    pub fn unserialize(vec: Vec<u8>) -> (r: Self)
        requires
            vec@.len() >= 40,
        ensures
            r == Self::spec_unserialize(vec@),
    {
        let proposal_hash = vector_as_u8_32_array(&vec);
        let block_number = u32_from_be_4(vec[32], vec[33], vec[34], vec[35]);
        let i = u32_from_be_4(vec[36], vec[37], vec[38], vec[39]);
        proof {
            assert(vec@.take(32) =~= vec@.subrange(0, 32));
            assert(seq![vec@[32], vec@[33], vec@[34], vec@[35]] =~= vec@.subrange(32, 36));
            assert(seq![vec@[36], vec@[37], vec@[38], vec@[39]] =~= vec@.subrange(36, 40));
            lemma_bytes32_of_view(proposal_hash, vec@.subrange(0, 32));
        }
        ProposalHashKey { proposal_hash, block_number, i }
    }

    /// Key round-trip: decoding a serialized entry restores it, and the
    /// serialization is injective.
    pub proof fn lemma_round_trip(k1: Self, k2: Self)
        ensures
            Self::spec_unserialize(k1.spec_serialize()) == k1,
            k1.spec_serialize() == k2.spec_serialize() ==> k1 == k2,
    {
        lemma_composite_key_parts(k1.proposal_hash@, k1.block_number, k1.i);
        assert(k1.spec_serialize().take(32) =~= k1.spec_serialize().subrange(0, 32));
        lemma_bytes32_of_view(k1.proposal_hash, k1.spec_serialize().subrange(0, 32));
        if k1.spec_serialize() == k2.spec_serialize() {
            lemma_composite_key_parts(k2.proposal_hash@, k2.block_number, k2.i);
            lemma_composite_key_injective(
                k1.proposal_hash@,
                k1.block_number,
                k1.i,
                k2.proposal_hash@,
                k2.block_number,
                k2.i,
            );
            assert(k1.proposal_hash =~= k2.proposal_hash);
        }
    }
}

/// An entry of the `proposal_index` tree: a numeric identifier (stored big-endian) and
/// the locator of the event that referenced it.
#[derive(Debug, PartialEq)]
pub struct ProposalIndexKey {
    pub proposal_index: u32,
    pub block_number: u32,
    pub i: u32,
}

impl ProposalIndexKey {
    /// The on-disk composite key for this entry.
    pub open spec fn spec_serialize(self) -> Seq<u8> {
        spec_composite_key(spec_u32_to_be_bytes(self.proposal_index), self.block_number, self.i)
    }

    /// The entry denoted by the first twelve bytes.
    pub open spec fn spec_unserialize(vec: Seq<u8>) -> ProposalIndexKey {
        ProposalIndexKey {
            proposal_index: spec_u32_from_be_bytes(vec.subrange(0, 4)),
            block_number: spec_u32_from_be_bytes(vec.subrange(4, 8)),
            i: spec_u32_from_be_bytes(vec.subrange(8, 12)),
        }
    }

    pub fn serialize(&self) -> (r: Vec<u8>)
        ensures
            r@ == self.spec_serialize(),
    {
        let mut out: Vec<u8> = Vec::new();
        push_u32_be_bytes(&mut out, self.proposal_index);
        push_u32_be_bytes(&mut out, self.block_number);
        push_u32_be_bytes(&mut out, self.i);
        assert(out@ =~= self.spec_serialize());
        out
    }

    pub fn unserialize(vec: Vec<u8>) -> (r: Self)
        requires
            vec@.len() >= 12,
        ensures
            r == Self::spec_unserialize(vec@),
    {
        let proposal_index = u32_from_be_4(vec[0], vec[1], vec[2], vec[3]);
        let block_number = u32_from_be_4(vec[4], vec[5], vec[6], vec[7]);
        let i = u32_from_be_4(vec[8], vec[9], vec[10], vec[11]);
        proof {
            assert(seq![vec@[0], vec@[1], vec@[2], vec@[3]] =~= vec@.subrange(0, 4));
            assert(seq![vec@[4], vec@[5], vec@[6], vec@[7]] =~= vec@.subrange(4, 8));
            assert(seq![vec@[8], vec@[9], vec@[10], vec@[11]] =~= vec@.subrange(8, 12));
        }
        ProposalIndexKey { proposal_index, block_number, i }
    }

    /// Key round-trip: decoding a serialized entry restores it, and the
    /// serialization is injective.
    pub proof fn lemma_round_trip(k1: Self, k2: Self)
        ensures
            Self::spec_unserialize(k1.spec_serialize()) == k1,
            k1.spec_serialize() == k2.spec_serialize() ==> k1 == k2,
    {
        lemma_composite_key_parts(spec_u32_to_be_bytes(k1.proposal_index), k1.block_number, k1.i);
        assert(k1.spec_serialize().take(4) =~= k1.spec_serialize().subrange(0, 4));
        lemma_u32_be_bytes_round_trip(k1.proposal_index);
        if k1.spec_serialize() == k2.spec_serialize() {
            lemma_composite_key_parts(spec_u32_to_be_bytes(k2.proposal_index), k2.block_number, k2.i);
            lemma_u32_be_bytes_round_trip(k2.proposal_index);
        }
    }
}

/// An entry of the `tip_hash` tree: a 32-byte identifier and the locator of the
/// event that referenced it.
#[derive(Debug, PartialEq)]
pub struct TipHashKey {
    pub tip_hash: [u8; 32],
    pub block_number: u32,
    pub i: u32,
}

impl TipHashKey {
    /// The on-disk composite key for this entry.
    pub open spec fn spec_serialize(self) -> Seq<u8> {
        spec_composite_key(self.tip_hash@, self.block_number, self.i)
    }

    /// The entry denoted by the first forty bytes.
    pub open spec fn spec_unserialize(vec: Seq<u8>) -> TipHashKey {
        TipHashKey {
            tip_hash: bytes32_of(vec.subrange(0, 32)),
            block_number: spec_u32_from_be_bytes(vec.subrange(32, 36)),
            i: spec_u32_from_be_bytes(vec.subrange(36, 40)),
        }
    }

    pub fn serialize(&self) -> (r: Vec<u8>)
        ensures
            r@ == self.spec_serialize(),
    {
        let mut out: Vec<u8> = Vec::new();
        push_bytes32(&mut out, &self.tip_hash);
        push_u32_be_bytes(&mut out, self.block_number);
        push_u32_be_bytes(&mut out, self.i);
        assert(out@ =~= self.spec_serialize());
        out
    }

    pub fn unserialize(vec: Vec<u8>) -> (r: Self)
        requires
            vec@.len() >= 40,
        ensures
            r == Self::spec_unserialize(vec@),
    {
        let tip_hash = vector_as_u8_32_array(&vec);
        let block_number = u32_from_be_4(vec[32], vec[33], vec[34], vec[35]);
        let i = u32_from_be_4(vec[36], vec[37], vec[38], vec[39]);
        proof {
            assert(vec@.take(32) =~= vec@.subrange(0, 32));
            assert(seq![vec@[32], vec@[33], vec@[34], vec@[35]] =~= vec@.subrange(32, 36));
            assert(seq![vec@[36], vec@[37], vec@[38], vec@[39]] =~= vec@.subrange(36, 40));
            lemma_bytes32_of_view(tip_hash, vec@.subrange(0, 32));
        }
        TipHashKey { tip_hash, block_number, i }
    }

    /// Key round-trip: decoding a serialized entry restores it, and the
    /// serialization is injective.
    pub proof fn lemma_round_trip(k1: Self, k2: Self)
        ensures
            Self::spec_unserialize(k1.spec_serialize()) == k1,
            k1.spec_serialize() == k2.spec_serialize() ==> k1 == k2,
    {
        lemma_composite_key_parts(k1.tip_hash@, k1.block_number, k1.i);
        assert(k1.spec_serialize().take(32) =~= k1.spec_serialize().subrange(0, 32));
        lemma_bytes32_of_view(k1.tip_hash, k1.spec_serialize().subrange(0, 32));
        if k1.spec_serialize() == k2.spec_serialize() {
            lemma_composite_key_parts(k2.tip_hash@, k2.block_number, k2.i);
            lemma_composite_key_injective(
                k1.tip_hash@,
                k1.block_number,
                k1.i,
                k2.tip_hash@,
                k2.block_number,
                k2.i,
            );
            assert(k1.tip_hash =~= k2.tip_hash);
        }
    }
}

/// A decoded event: the pallet that emitted it and its variant with the
/// fields the indexer reads.
#[derive(Debug, Clone, Copy, PartialEq)]
pub enum Event {
    BagsList(crate::pallets::bags_list::BagsList),
    Balances(crate::pallets::balances::Balances),
    Claims(crate::pallets::claims::Claims),
    Collective(crate::pallets::collective::Collective),
    System(crate::pallets::system::System),
    TransactionPayment(crate::pallets::transaction_payment::TransactionPayment),
    Vesting(crate::pallets::vesting::Vesting),
}

/// The dispatch table: the identifiers an event references, in extraction
/// order.  This is the single source of truth for which fields of which
/// events contribute to which index.
pub open spec fn spec_event_identifiers(e: Event) -> Seq<Key> {
    match e {
        Event::BagsList(p) => crate::pallets::bags_list::spec_bags_list_identifiers(p),
        Event::Balances(p) => crate::pallets::balances::spec_balances_identifiers(p),
        Event::Claims(p) => crate::pallets::claims::spec_claims_identifiers(p),
        Event::Collective(p) => crate::pallets::collective::spec_collective_identifiers(p),
        Event::System(p) => crate::pallets::system::spec_system_identifiers(p),
        Event::TransactionPayment(p) => crate::pallets::transaction_payment::spec_transaction_payment_identifiers(p),
        Event::Vesting(p) => crate::pallets::vesting::spec_vesting_identifiers(p),
    }
}

/// Lists the identifiers referenced by an event, per the dispatch table.
pub fn event_identifiers(e: &Event) -> (r: Vec<Key>)
    ensures
        r@ == spec_event_identifiers(*e),
{
    match e {
        Event::BagsList(p) => crate::pallets::bags_list::bags_list_identifiers(p),
        Event::Balances(p) => crate::pallets::balances::balances_identifiers(p),
        Event::Claims(p) => crate::pallets::claims::claims_identifiers(p),
        Event::Collective(p) => crate::pallets::collective::collective_identifiers(p),
        Event::System(p) => crate::pallets::system::system_identifiers(p),
        Event::TransactionPayment(p) => crate::pallets::transaction_payment::transaction_payment_identifiers(p),
        Event::Vesting(p) => crate::pallets::vesting::vesting_identifiers(p),
    }
}

/// The compact binary form of an event: a pallet tag, then the pallet's own
/// payload encoding.
pub open spec fn spec_encode_event(e: Event) -> Seq<u8> {
    match e {
        Event::BagsList(p) => seq![0u8] + crate::pallets::bags_list::spec_encode_bags_list(p),
        Event::Balances(p) => seq![1u8] + crate::pallets::balances::spec_encode_balances(p),
        Event::Claims(p) => seq![2u8] + crate::pallets::claims::spec_encode_claims(p),
        Event::Collective(p) => seq![3u8] + crate::pallets::collective::spec_encode_collective(p),
        Event::System(p) => seq![4u8] + crate::pallets::system::spec_encode_system(p),
        Event::TransactionPayment(p) => seq![5u8]
            + crate::pallets::transaction_payment::spec_encode_transaction_payment(p),
        Event::Vesting(p) => seq![6u8] + crate::pallets::vesting::spec_encode_vesting(p),
    }
}

/// Encodes an event to its compact binary form.
pub fn encode_event(e: &Event) -> (r: Vec<u8>)
    ensures
        r@ == spec_encode_event(*e),
{
    let mut out: Vec<u8> = Vec::new();
    match e {
        Event::BagsList(p) => {
            out.push(0);
            crate::pallets::bags_list::encode_bags_list(&mut out, p);
        },
        Event::Balances(p) => {
            out.push(1);
            crate::pallets::balances::encode_balances(&mut out, p);
        },
        Event::Claims(p) => {
            out.push(2);
            crate::pallets::claims::encode_claims(&mut out, p);
        },
        Event::Collective(p) => {
            out.push(3);
            crate::pallets::collective::encode_collective(&mut out, p);
        },
        Event::System(p) => {
            out.push(4);
            crate::pallets::system::encode_system(&mut out, p);
        },
        Event::TransactionPayment(p) => {
            out.push(5);
            crate::pallets::transaction_payment::encode_transaction_payment(&mut out, p);
        },
        Event::Vesting(p) => {
            out.push(6);
            crate::pallets::vesting::encode_vesting(&mut out, p);
        },
    }
    assert(out@ =~= spec_encode_event(*e));
    out
}

/// The value stored beside each index key: the encoded payload for the
/// pallets that populate it, empty for the rest.
pub open spec fn spec_event_value(e: Event) -> Seq<u8> {
    match e {
        Event::Balances(_) => spec_encode_event(e),
        Event::Collective(_) => spec_encode_event(e),
        _ => Seq::<u8>::empty(),
    }
}

/// Renders the stored value for an event.
pub fn event_value(e: &Event) -> (r: Vec<u8>)
    ensures
        r@ == spec_event_value(*e),
{
    match e {
        Event::Balances(_) => encode_event(e),
        Event::Collective(_) => encode_event(e),
        _ => {
            let out: Vec<u8> = Vec::new();
            assert(out@ =~= Seq::<u8>::empty());
            out
        },
    }
}

/// The event denoted by a stored payload, when the bytes are exactly one
/// event's encoding: the pallet tag selects the pallet, whose own decoder
/// reads the rest.
pub open spec fn spec_decode_event(s: Seq<u8>) -> Option<Event> {
    if s.len() == 0 {
        None
    } else if s[0] == 0u8 {
        match crate::pallets::bags_list::spec_decode_bags_list(s.drop_first()) {
            Some(p) => Some(Event::BagsList(p)),
            None => None,
        }
    } else if s[0] == 1u8 {
        match crate::pallets::balances::spec_decode_balances(s.drop_first()) {
            Some(p) => Some(Event::Balances(p)),
            None => None,
        }
    } else if s[0] == 2u8 {
        match crate::pallets::claims::spec_decode_claims(s.drop_first()) {
            Some(p) => Some(Event::Claims(p)),
            None => None,
        }
    } else if s[0] == 3u8 {
        match crate::pallets::collective::spec_decode_collective(s.drop_first()) {
            Some(p) => Some(Event::Collective(p)),
            None => None,
        }
    } else if s[0] == 4u8 {
        match crate::pallets::system::spec_decode_system(s.drop_first()) {
            Some(p) => Some(Event::System(p)),
            None => None,
        }
    } else if s[0] == 5u8 {
        match crate::pallets::transaction_payment::spec_decode_transaction_payment(
            s.drop_first(),
        ) {
            Some(p) => Some(Event::TransactionPayment(p)),
            None => None,
        }
    } else if s[0] == 6u8 {
        match crate::pallets::vesting::spec_decode_vesting(s.drop_first()) {
            Some(p) => Some(Event::Vesting(p)),
            None => None,
        }
    } else {
        None
    }
}

/// The stored payload is lossless: decoding an encoded event restores it,
/// and the encoding is injective.
pub proof fn lemma_event_payload_round_trip(e1: Event, e2: Event)
    ensures
        spec_decode_event(spec_encode_event(e1)) == Some(e1),
        spec_encode_event(e1) == spec_encode_event(e2) ==> e1 == e2,
{
    lemma_event_payload_decode(e1);
    lemma_event_payload_decode(e2);
}

proof fn lemma_event_payload_decode(e: Event)
    ensures
        spec_decode_event(spec_encode_event(e)) == Some(e),
{
    let s = spec_encode_event(e);
    match e {
        Event::BagsList(p) => {
            assert(s.drop_first() =~= crate::pallets::bags_list::spec_encode_bags_list(p));
            crate::pallets::bags_list::lemma_bags_list_payload_round_trip(p);
        },
        Event::Balances(p) => {
            assert(s.drop_first() =~= crate::pallets::balances::spec_encode_balances(p));
            crate::pallets::balances::lemma_balances_payload_round_trip(p);
        },
        Event::Claims(p) => {
            assert(s.drop_first() =~= crate::pallets::claims::spec_encode_claims(p));
            crate::pallets::claims::lemma_claims_payload_round_trip(p);
        },
        Event::Collective(p) => {
            assert(s.drop_first() =~= crate::pallets::collective::spec_encode_collective(p));
            crate::pallets::collective::lemma_collective_payload_round_trip(p);
        },
        Event::System(p) => {
            assert(s.drop_first() =~= crate::pallets::system::spec_encode_system(p));
            crate::pallets::system::lemma_system_payload_round_trip(p);
        },
        Event::TransactionPayment(p) => {
            assert(s.drop_first()
                =~= crate::pallets::transaction_payment::spec_encode_transaction_payment(p));
            crate::pallets::transaction_payment::lemma_transaction_payment_payload_round_trip(p);
        },
        Event::Vesting(p) => {
            assert(s.drop_first() =~= crate::pallets::vesting::spec_encode_vesting(p));
            crate::pallets::vesting::lemma_vesting_payload_round_trip(p);
        },
    }
}

} // verus!
