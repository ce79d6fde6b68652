//! Composite-key codecs: exact byte layouts and round trips per identifier
//! kind.

use chain_index::shared::{
    key_prefix, vector_as_u8_32_array, vector_as_u8_4_array, AccountIdKey, AccountIndexKey,
    AuctionIndexKey, BountyIndexKey, CandidateHashKey, Key, MessageIdKey, ParaIdKey, PoolIdKey,
    ProposalHashKey, ProposalIndexKey, RefIndexKey, RegistrarIndexKey, TipHashKey,
};

fn sample_id(seed: u8) -> [u8; 32] {
    let mut id = [0u8; 32];
    for i in 0..32 {
        id[i] = seed.wrapping_add(i as u8);
    }
    id
}

#[test]
fn account_id_key_serialize_exact() {
    let id = sample_id(1);
    let k = AccountIdKey { account_id: id, block_number: 1000, i: 3 };
    let bytes = k.serialize();
    assert_eq!(bytes.len(), 40);
    assert_eq!(&bytes[0..32], &id[..]);
    assert_eq!(&bytes[32..36], &[0, 0, 3, 232]);
    assert_eq!(&bytes[36..40], &[0, 0, 0, 3]);
}

#[test]
fn account_id_key_round_trip() {
    let k = AccountIdKey { account_id: sample_id(7), block_number: 123456, i: 9 };
    let r = AccountIdKey::unserialize(k.serialize());
    assert_eq!(r.account_id, k.account_id);
    assert_eq!(r.block_number, k.block_number);
    assert_eq!(r.i, k.i);
}

#[test]
fn account_index_key_serialize_exact() {
    let k = AccountIndexKey { account_index: 5, block_number: 1000, i: 3 };
    assert_eq!(k.serialize(), vec![0, 0, 0, 5, 0, 0, 3, 232, 0, 0, 0, 3]);
}

#[test]
fn account_index_key_round_trip() {
    let k = AccountIndexKey { account_index: 42, block_number: 4294967295, i: 0 };
    let r = AccountIndexKey::unserialize(k.serialize());
    assert_eq!(r.account_index, 42);
    assert_eq!(r.block_number, 4294967295);
    assert_eq!(r.i, 0);
}

#[test]
fn auction_index_key_round_trip() {
    let k = AuctionIndexKey { auction_index: 11, block_number: 22, i: 33 };
    let r = AuctionIndexKey::unserialize(k.serialize());
    assert_eq!((r.auction_index, r.block_number, r.i), (11, 22, 33));
}

#[test]
fn bounty_index_key_round_trip() {
    let k = BountyIndexKey { bounty_index: 8, block_number: 900, i: 1 };
    let r = BountyIndexKey::unserialize(k.serialize());
    assert_eq!((r.bounty_index, r.block_number, r.i), (8, 900, 1));
}

#[test]
fn candidate_hash_key_round_trip() {
    let k = CandidateHashKey { candidate_hash: sample_id(9), block_number: 77, i: 2 };
    let r = CandidateHashKey::unserialize(k.serialize());
    assert_eq!(r.candidate_hash, k.candidate_hash);
    assert_eq!((r.block_number, r.i), (77, 2));
}

#[test]
fn message_id_key_round_trip() {
    let k = MessageIdKey { message_id: sample_id(13), block_number: 5, i: 6 };
    let r = MessageIdKey::unserialize(k.serialize());
    assert_eq!(r.message_id, k.message_id);
    assert_eq!((r.block_number, r.i), (5, 6));
}

#[test]
fn para_id_key_round_trip() {
    let k = ParaIdKey { para_id: 2004, block_number: 15000000, i: 41 };
    let r = ParaIdKey::unserialize(k.serialize());
    assert_eq!((r.para_id, r.block_number, r.i), (2004, 15000000, 41));
}

#[test]
fn pool_id_key_round_trip() {
    let k = PoolIdKey { pool_id: 17, block_number: 160, i: 12 };
    let r = PoolIdKey::unserialize(k.serialize());
    assert_eq!((r.pool_id, r.block_number, r.i), (17, 160, 12));
}

#[test]
fn ref_index_key_round_trip() {
    let k = RefIndexKey { ref_index: 256, block_number: 65536, i: 16777216 };
    let r = RefIndexKey::unserialize(k.serialize());
    assert_eq!((r.ref_index, r.block_number, r.i), (256, 65536, 16777216));
}

#[test]
fn registrar_index_key_round_trip() {
    let k = RegistrarIndexKey { registrar_index: 1, block_number: 2, i: 3 };
    let r = RegistrarIndexKey::unserialize(k.serialize());
    assert_eq!((r.registrar_index, r.block_number, r.i), (1, 2, 3));
}

#[test]
fn proposal_hash_key_round_trip() {
    let k = ProposalHashKey { proposal_hash: sample_id(21), block_number: 2000, i: 0 };
    let r = ProposalHashKey::unserialize(k.serialize());
    assert_eq!(r.proposal_hash, k.proposal_hash);
    assert_eq!((r.block_number, r.i), (2000, 0));
}

#[test]
fn proposal_index_key_round_trip() {
    let k = ProposalIndexKey { proposal_index: 7, block_number: 2000, i: 0 };
    let r = ProposalIndexKey::unserialize(k.serialize());
    assert_eq!((r.proposal_index, r.block_number, r.i), (7, 2000, 0));
}

#[test]
fn tip_hash_key_round_trip() {
    let k = TipHashKey { tip_hash: sample_id(30), block_number: 31, i: 32 };
    let r = TipHashKey::unserialize(k.serialize());
    assert_eq!(r.tip_hash, k.tip_hash);
    assert_eq!((r.block_number, r.i), (31, 32));
}

#[test]
fn serialize_is_injective_across_fields() {
    // Same bytes only for same entries: moving one unit between block and
    // index changes the key.
    let a = AccountIndexKey { account_index: 5, block_number: 1, i: 0 };
    let b = AccountIndexKey { account_index: 5, block_number: 0, i: 1 };
    assert_ne!(a.serialize(), b.serialize());
}

#[test]
fn sorted_byte_order_matches_locator_order() {
    // Order coincidence: under one identifier, byte order of serialized keys
    // follows (block, event_index) numeric order.
    let id = sample_id(3);
    let mut keys = vec![
        AccountIdKey { account_id: id, block_number: 2, i: 0 }.serialize(),
        AccountIdKey { account_id: id, block_number: 1, i: 9 }.serialize(),
        AccountIdKey { account_id: id, block_number: 1, i: 256 }.serialize(),
        AccountIdKey { account_id: id, block_number: 256, i: 1 }.serialize(),
    ];
    keys.sort();
    assert_eq!(
        keys,
        vec![
            AccountIdKey { account_id: id, block_number: 1, i: 9 }.serialize(),
            AccountIdKey { account_id: id, block_number: 1, i: 256 }.serialize(),
            AccountIdKey { account_id: id, block_number: 2, i: 0 }.serialize(),
            AccountIdKey { account_id: id, block_number: 256, i: 1 }.serialize(),
        ]
    );
}

#[test]
fn key_prefix_encodings() {
    assert_eq!(key_prefix(&Key::Variant(5, 2)), vec![5, 2]);
    assert_eq!(key_prefix(&Key::ProposalIndex(42)), vec![0, 0, 0, 42]);
    let id = sample_id(4);
    assert_eq!(key_prefix(&Key::AccountId(id)), id.to_vec());
}

#[test]
fn vector_as_array_copies_prefix() {
    let v: Vec<u8> = (0..40).collect();
    let a32 = vector_as_u8_32_array(&v);
    assert_eq!(&a32[..], &v[0..32]);
    let a4 = vector_as_u8_4_array(&v);
    assert_eq!(&a4[..], &v[0..4]);
}
