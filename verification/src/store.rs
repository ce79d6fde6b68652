//! The sorted key-value store: one tree per identifier kind plus a root tree
//! for progress metadata.
//!
//! The embedded store itself is an outside collection; the library sees each
//! tree through a small set of trusted wrappers whose contracts speak of the
//! abstract contents `tree_view`.  Writes are confined to a single owner
//! (`&mut`), mirroring the single-writer indexer design; readers observe a
//! consistent snapshot per handle.

use vstd::prelude::*;

use crate::codec::{is_prefix_of, lex_lt, spec_u32_from_be_bytes, spec_u32_to_be_bytes,
    u32_from_be_4, push_u32_be_bytes};

verus! {

#[verifier::external_type_specification]
#[verifier::external_body]
pub struct ExSledTree(sled::Tree);

#[verifier::external_type_specification]
#[verifier::external_body]
pub struct ExSledError(sled::Error);

/// The contents of a store tree: a map from key bytes to value bytes.
pub uninterp spec fn tree_view(t: sled::Tree) -> Map<Seq<u8>, Seq<u8>>;

/// One sorted tree of the store, held by its single verified owner.
pub struct StoreTree {
    pub t: sled::Tree,
}

impl View for StoreTree {
    type V = Map<Seq<u8>, Seq<u8>>;

    open spec fn view(&self) -> Map<Seq<u8>, Seq<u8>> {
        tree_view(self.t)
    }
}

impl StoreTree {
    /// Wraps a tree handle opened by the embedding program.
    pub fn new(t: sled::Tree) -> StoreTree {
        StoreTree { t }
    }
}

/// The library's error taxonomy: store failures are fatal and propagate.
#[derive(Debug)]
pub enum IndexError {
    Store(sled::Error),
}

/// Relies on sled::Tree::insert: sets the key to the value; other keys keep
/// their values.
#[verifier::external_body]
pub fn store_insert(tree: &mut StoreTree, key: &Vec<u8>, value: &Vec<u8>) -> (r: Result<
    (),
    sled::Error,
>)
    ensures
        r is Ok ==> tree_view(final(tree).t) == tree_view(old(tree).t).insert(key@, value@),
{
    match tree.t.insert(key.as_slice(), value.as_slice()) {
        Ok(_) => Ok(()),
        Err(e) => Err(e),
    }
}

/// Relies on sled::Tree::get: returns the value currently stored at the key,
/// or nothing when the key is absent.
#[verifier::external_body]
pub fn store_get(tree: &StoreTree, key: &Vec<u8>) -> (r: Result<Option<Vec<u8>>, sled::Error>)
    ensures
        r matches Ok(Some(v)) ==> tree@.contains_key(key@) && v@ == tree@[key@],
        r matches Ok(None) ==> !tree@.contains_key(key@),
{
    match tree.t.get(key.as_slice()) {
        Ok(Some(v)) => Ok(Some(v.to_vec())),
        Ok(None) => Ok(None),
        Err(e) => Err(e),
    }
}

/// Relies on sled::Tree::scan_prefix: iterates exactly the keys that start
/// with the prefix, in ascending lexicographic byte order, without
/// repetition.
#[verifier::external_body]
pub fn store_scan_prefix_keys(tree: &StoreTree, prefix: &Vec<u8>) -> (r: Result<
    Vec<Vec<u8>>,
    sled::Error,
>)
    ensures
        r matches Ok(ks) ==> {
            &&& forall|i: int|
                0 <= i < ks@.len() ==> tree@.contains_key(#[trigger] ks@[i]@) && is_prefix_of(
                    prefix@,
                    ks@[i]@,
                )
            &&& forall|k: Seq<u8>|
                #[trigger] tree@.contains_key(k) && is_prefix_of(prefix@, k) ==> exists|i: int|
                    0 <= i < ks@.len() && #[trigger] ks@[i]@ == k
            &&& forall|i: int, j: int|
                0 <= i < j < ks@.len() ==> lex_lt(#[trigger] ks@[i]@, #[trigger] ks@[j]@)
        },
{
    let mut out: Vec<Vec<u8>> = Vec::new();
    for item in tree.t.scan_prefix(prefix.as_slice()).keys() {
        match item {
            Ok(k) => out.push(k.to_vec()),
            Err(e) => return Err(e),
        }
    }
    Ok(out)
}

/// Relies on sled::Tree::flush: blocks until previous writes are durable.
#[verifier::external_body]
pub fn store_flush(tree: &StoreTree) -> (r: Result<usize, sled::Error>) {
    tree.t.flush()
}

/// The abstract state of the whole store: the root tree and one tree per
/// identifier kind.
#[verifier::ext_equal]
pub struct TreesView {
    pub root: Map<Seq<u8>, Seq<u8>>,
    pub account_id: Map<Seq<u8>, Seq<u8>>,
    pub account_index: Map<Seq<u8>, Seq<u8>>,
    pub auction_index: Map<Seq<u8>, Seq<u8>>,
    pub bounty_index: Map<Seq<u8>, Seq<u8>>,
    pub candidate_hash: Map<Seq<u8>, Seq<u8>>,
    pub era_index: Map<Seq<u8>, Seq<u8>>,
    pub message_id: Map<Seq<u8>, Seq<u8>>,
    pub para_id: Map<Seq<u8>, Seq<u8>>,
    pub pool_id: Map<Seq<u8>, Seq<u8>>,
    pub preimage_hash: Map<Seq<u8>, Seq<u8>>,
    pub proposal_hash: Map<Seq<u8>, Seq<u8>>,
    pub proposal_index: Map<Seq<u8>, Seq<u8>>,
    pub ref_index: Map<Seq<u8>, Seq<u8>>,
    pub registrar_index: Map<Seq<u8>, Seq<u8>>,
    pub session_index: Map<Seq<u8>, Seq<u8>>,
    pub tip_hash: Map<Seq<u8>, Seq<u8>>,
    pub variant: Map<Seq<u8>, Seq<u8>>,
}

/// The root tree and the named trees of the store, one per identifier kind.
pub struct Trees {
    pub root: StoreTree,
    pub account_id: StoreTree,
    pub account_index: StoreTree,
    pub auction_index: StoreTree,
    pub bounty_index: StoreTree,
    pub candidate_hash: StoreTree,
    pub era_index: StoreTree,
    pub message_id: StoreTree,
    pub para_id: StoreTree,
    pub pool_id: StoreTree,
    pub preimage_hash: StoreTree,
    pub proposal_hash: StoreTree,
    pub proposal_index: StoreTree,
    pub ref_index: StoreTree,
    pub registrar_index: StoreTree,
    pub session_index: StoreTree,
    pub tip_hash: StoreTree,
    pub variant: StoreTree,
}

impl View for Trees {
    type V = TreesView;

    open spec fn view(&self) -> TreesView {
        TreesView {
            root: self.root@,
            account_id: self.account_id@,
            account_index: self.account_index@,
            auction_index: self.auction_index@,
            bounty_index: self.bounty_index@,
            candidate_hash: self.candidate_hash@,
            era_index: self.era_index@,
            message_id: self.message_id@,
            para_id: self.para_id@,
            pool_id: self.pool_id@,
            preimage_hash: self.preimage_hash@,
            proposal_hash: self.proposal_hash@,
            proposal_index: self.proposal_index@,
            ref_index: self.ref_index@,
            registrar_index: self.registrar_index@,
            session_index: self.session_index@,
            tip_hash: self.tip_hash@,
            variant: self.variant@,
        }
    }
}

/// The byte key under which `last_head_block` is stored in the root tree.
pub open spec fn spec_last_head_block_key() -> Seq<u8> {
    seq![108u8, 97, 115, 116, 95, 104, 101, 97, 100, 95, 98, 108, 111, 99, 107]
}

/// The byte key under which `last_batch_block` is stored in the root tree.
pub open spec fn spec_last_batch_block_key() -> Seq<u8> {
    seq![108u8, 97, 115, 116, 95, 98, 97, 116, 99, 104, 95, 98, 108, 111, 99, 107]
}

/// The byte key under which `batch_indexing_complete` is stored in the root
/// tree.
pub open spec fn spec_batch_indexing_complete_key() -> Seq<u8> {
    seq![
        98u8,
        97,
        116,
        99,
        104,
        95,
        105,
        110,
        100,
        101,
        120,
        105,
        110,
        103,
        95,
        99,
        111,
        109,
        112,
        108,
        101,
        116,
        101,
    ]
}

/// Renders `last_head_block` as key bytes.
pub fn last_head_block_key() -> (r: Vec<u8>)
    ensures
        r@ == spec_last_head_block_key(),
{
    let a: [u8; 15] = [108, 97, 115, 116, 95, 104, 101, 97, 100, 95, 98, 108, 111, 99, 107];
    let r = array15_to_vec(&a);
    assert(a@ =~= spec_last_head_block_key());
    r
}

/// Renders `last_batch_block` as key bytes.
pub fn last_batch_block_key() -> (r: Vec<u8>)
    ensures
        r@ == spec_last_batch_block_key(),
{
    let a: [u8; 16] = [108, 97, 115, 116, 95, 98, 97, 116, 99, 104, 95, 98, 108, 111, 99, 107];
    let mut out: Vec<u8> = Vec::new();
    let mut i: usize = 0;
    while i < 16
        invariant
            i <= 16,
            out@ =~= a@.take(i as int),
        decreases 16 - i,
    {
        out.push(a[i]);
        i = i + 1;
    }
    assert(out@ =~= a@);
    assert(a@ =~= spec_last_batch_block_key());
    out
}

/// Renders `batch_indexing_complete` as key bytes.
pub fn batch_indexing_complete_key() -> (r: Vec<u8>)
    ensures
        r@ == spec_batch_indexing_complete_key(),
{
    let a: [u8; 23] = [
        98,
        97,
        116,
        99,
        104,
        95,
        105,
        110,
        100,
        101,
        120,
        105,
        110,
        103,
        95,
        99,
        111,
        109,
        112,
        108,
        101,
        116,
        101,
    ];
    let mut out: Vec<u8> = Vec::new();
    let mut i: usize = 0;
    while i < 23
        invariant
            i <= 23,
            out@ =~= a@.take(i as int),
        decreases 23 - i,
    {
        out.push(a[i]);
        i = i + 1;
    }
    assert(out@ =~= a@);
    assert(a@ =~= spec_batch_indexing_complete_key());
    out
}

fn array15_to_vec(a: &[u8; 15]) -> (r: Vec<u8>)
    ensures
        r@ == a@,
{
    let mut out: Vec<u8> = Vec::new();
    let mut i: usize = 0;
    while i < 15
        invariant
            i <= 15,
            out@ =~= a@.take(i as int),
        decreases 15 - i,
    {
        out.push(a[i]);
        i = i + 1;
    }
    assert(out@ =~= a@);
    out
}

/// The progress counter stored under `key`: the big-endian value when a
/// well-formed four-byte entry is present, zero otherwise.
pub open spec fn spec_progress_value(m: Map<Seq<u8>, Seq<u8>>, key: Seq<u8>) -> u32 {
    if m.contains_key(key) && m[key].len() == 4 {
        spec_u32_from_be_bytes(m[key])
    } else {
        0
    }
}

/// The boolean flag stored under `key`: set exactly when the first stored
/// byte is one.
pub open spec fn spec_progress_flag(m: Map<Seq<u8>, Seq<u8>>, key: Seq<u8>) -> bool {
    m.contains_key(key) && m[key].len() > 0 && m[key][0] == 1u8
}

/// Reads a progress counter from the root tree, defaulting to zero when
/// absent or malformed.
pub fn read_progress_value(tree: &StoreTree, key: &Vec<u8>) -> (r: Result<u32, IndexError>)
    ensures
        r matches Ok(n) ==> n == spec_progress_value(tree@, key@),
{
    match store_get(tree, key) {
        Ok(Some(v)) => {
            if v.len() == 4 {
                let n = u32_from_be_4(v[0], v[1], v[2], v[3]);
                proof {
                    assert(seq![v@[0], v@[1], v@[2], v@[3]] =~= v@);
                }
                Ok(n)
            } else {
                Ok(0)
            }
        },
        Ok(None) => Ok(0),
        Err(e) => Err(IndexError::Store(e)),
    }
}

/// Reads a progress flag from the root tree, defaulting to unset.
pub fn read_progress_flag(tree: &StoreTree, key: &Vec<u8>) -> (r: Result<bool, IndexError>)
    ensures
        r matches Ok(b) ==> b == spec_progress_flag(tree@, key@),
{
    match store_get(tree, key) {
        Ok(Some(v)) => {
            if v.len() > 0 {
                Ok(v[0] == 1)
            } else {
                Ok(false)
            }
        },
        Ok(None) => Ok(false),
        Err(e) => Err(IndexError::Store(e)),
    }
}

/// Records that historical back-fill has caught up to the head seen at
/// start: a single set byte under `batch_indexing_complete`.
pub fn set_batch_indexing_complete(tree: &mut StoreTree) -> (r: Result<(), IndexError>)
    ensures
        r is Ok ==> {
            &&& final(tree)@ == old(tree)@.insert(spec_batch_indexing_complete_key(), seq![1u8])
            &&& spec_progress_flag(final(tree)@, spec_batch_indexing_complete_key())
        },
{
    let key = batch_indexing_complete_key();
    let mut value: Vec<u8> = Vec::new();
    value.push(1);
    assert(value@ =~= seq![1u8]);
    match store_insert(tree, &key, &value) {
        Ok(()) => Ok(()),
        Err(e) => Err(IndexError::Store(e)),
    }
}

/// Advances a progress counter, never letting it decrease: the new stored
/// value is the maximum of the old value and `block`.  Progress metadata is
/// monotonically non-decreasing across restarts because every write goes
/// through here.
pub fn update_progress(tree: &mut StoreTree, key: &Vec<u8>, block: u32) -> (r: Result<
    (),
    IndexError,
>)
    ensures
        r is Ok ==> {
            &&& spec_progress_value(final(tree)@, key@) >= spec_progress_value(old(tree)@, key@)
            &&& spec_progress_value(final(tree)@, key@) == if block > spec_progress_value(
                old(tree)@,
                key@,
            ) {
                block
            } else {
                spec_progress_value(old(tree)@, key@)
            }
            &&& final(tree)@ == if block > spec_progress_value(old(tree)@, key@) {
                old(tree)@.insert(key@, spec_u32_to_be_bytes(block))
            } else {
                old(tree)@
            }
        },
{
    let current = match read_progress_value(tree, key) {
        Ok(n) => n,
        Err(e) => {
            return Err(e);
        },
    };
    if block > current {
        let mut value: Vec<u8> = Vec::new();
        push_u32_be_bytes(&mut value, block);
        assert(value@ =~= spec_u32_to_be_bytes(block));
        match store_insert(tree, key, &value) {
            Ok(()) => {
                proof {
                    crate::codec::lemma_u32_be_bytes_round_trip(block);
                }
                Ok(())
            },
            Err(e) => Err(IndexError::Store(e)),
        }
    } else {
        Ok(())
    }
}

} // verus!
