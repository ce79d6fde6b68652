//! The query service: decoded client requests in, responses out.
//!
//! A point query is a reverse prefix scan of the identifier's tree, capped
//! at one hundred locators, most recent first.  The embedding program owns
//! the sockets and the JSON framing; everything here works on decoded
//! values.

use vstd::prelude::*;

use crate::codec::{
    is_prefix_of, lemma_composite_key_parts, lemma_order_coincidence,
    lemma_u32_be_bytes_inverse, lex_lt, spec_composite_key, spec_u32_from_be_bytes, u32_from_be_4,
};
use crate::shared::{key_prefix, spec_key_prefix, EventLocator, Key};
use crate::store::{
    read_progress_flag, read_progress_value, batch_indexing_complete_key, last_batch_block_key,
    last_head_block_key, spec_batch_indexing_complete_key, spec_last_batch_block_key,
    spec_last_head_block_key, spec_progress_flag, spec_progress_value, store_scan_prefix_keys,
    IndexError, StoreTree, Trees, TreesView,
};
use crate::indexer::spec_kind_map;

verus! {

/// One event variant of a pallet, as listed in the schema catalog.
#[derive(Debug, Clone, PartialEq)]
pub struct EventMeta {
    pub index: u8,
    pub name: String,
}

/// One pallet of the schema catalog, with its event variants.
#[derive(Debug, Clone, PartialEq)]
pub struct PalletMeta {
    pub index: u8,
    pub name: String,
    pub events: Vec<EventMeta>,
}

/// A decoded client request.
#[derive(Debug, Clone, Copy)]
pub enum RequestMessage {
    Status,
    Variants,
    GetEvents { key: Key },
    SubscribeEvents { key: Key },
}

/// A response or push frame sent to a client.
#[derive(Debug, Clone)]
pub enum ResponseMessage {
    Status { last_head_block: u32, last_batch_block: u32, batch_indexing_complete: bool },
    Variants(Vec<PalletMeta>),
    Events { key: Key, events: Vec<EventLocator> },
    Subscribed,
}

/// The locator encoded in the eight-byte suffix of a composite key whose
/// identifier part has length `plen`.
pub open spec fn spec_key_locator(k: Seq<u8>, plen: int) -> EventLocator {
    EventLocator {
        block_number: spec_u32_from_be_bytes(k.subrange(plen, plen + 4)),
        event_index: spec_u32_from_be_bytes(k.subrange(plen + 4, plen + 8)),
    }
}

/// A well-formed entry key for identifier bytes `p`: it starts with `p` and
/// carries exactly the eight locator bytes.
pub open spec fn spec_wf_key(k: Seq<u8>, p: Seq<u8>) -> bool {
    k.len() == p.len() + 8 && is_prefix_of(p, k)
}

/// Chronological order on locators: later blocks, then later positions
/// within a block.
pub open spec fn spec_locator_lt(a: EventLocator, b: EventLocator) -> bool {
    a.block_number < b.block_number || (a.block_number == b.block_number && a.event_index
        < b.event_index)
}

/// Every locator whose composite key under identifier bytes `p` is present
/// in the tree.
pub open spec fn spec_locator_set(m: Map<Seq<u8>, Seq<u8>>, p: Seq<u8>) -> Set<EventLocator> {
    Set::new(
        |loc: EventLocator|
            m.contains_key(spec_composite_key(p, loc.block_number, loc.event_index)),
    )
}

/// What a query answer promises: at most one hundred locators, strictly most
/// recent first, drawn from exactly the identifier's entries; when the cap
/// binds, the answer holds the hundred most recent.
pub open spec fn spec_query_result(
    m: Map<Seq<u8>, Seq<u8>>,
    p: Seq<u8>,
    evs: Seq<EventLocator>,
) -> bool {
    &&& evs.len() <= 100
    &&& forall|i: int, j: int|
        0 <= i < j < evs.len() ==> spec_locator_lt(#[trigger] evs[j], #[trigger] evs[i])
    &&& forall|i: int| 0 <= i < evs.len() ==> spec_locator_set(m, p).contains(#[trigger] evs[i])
    &&& forall|loc: EventLocator|
        #[trigger] spec_locator_set(m, p).contains(loc) ==> (evs.contains(loc) || (evs.len() == 100
            && spec_locator_lt(loc, evs[99])))
}

/// A well-formed key is the composite key of its own locator.
proof fn lemma_wf_key_decomposition(k: Seq<u8>, p: Seq<u8>)
    requires
        spec_wf_key(k, p),
    ensures
        k == spec_composite_key(
            p,
            spec_key_locator(k, p.len() as int).block_number,
            spec_key_locator(k, p.len() as int).event_index,
        ),
{
    let plen = p.len() as int;
    let b = spec_u32_from_be_bytes(k.subrange(plen, plen + 4));
    let i = spec_u32_from_be_bytes(k.subrange(plen + 4, plen + 8));
    lemma_u32_be_bytes_inverse(k.subrange(plen, plen + 4));
    lemma_u32_be_bytes_inverse(k.subrange(plen + 4, plen + 8));
    assert(k =~= k.take(plen) + k.subrange(plen, plen + 4) + k.subrange(plen + 4, plen + 8));
}

/// Well-formed keys under one identifier sort by their locators.
proof fn lemma_wf_key_order(k1: Seq<u8>, k2: Seq<u8>, p: Seq<u8>)
    requires
        spec_wf_key(k1, p),
        spec_wf_key(k2, p),
        lex_lt(k1, k2),
    ensures
        spec_locator_lt(spec_key_locator(k1, p.len() as int), spec_key_locator(k2, p.len() as int)),
{
    let l1 = spec_key_locator(k1, p.len() as int);
    let l2 = spec_key_locator(k2, p.len() as int);
    lemma_wf_key_decomposition(k1, p);
    lemma_wf_key_decomposition(k2, p);
    lemma_order_coincidence(p, l1.block_number, l1.event_index, l2.block_number, l2.event_index);
}

/// The locators of the well-formed keys in `ks`, last key first.
pub open spec fn spec_locs_desc(ks: Seq<Seq<u8>>, p: Seq<u8>) -> Seq<EventLocator>
    decreases ks.len(),
{
    if ks.len() == 0 {
        Seq::empty()
    } else if spec_wf_key(ks.last(), p) {
        seq![spec_key_locator(ks.last(), p.len() as int)] + spec_locs_desc(ks.drop_last(), p)
    } else {
        spec_locs_desc(ks.drop_last(), p)
    }
}

proof fn lemma_locs_desc_prepend(k: Seq<u8>, s: Seq<Seq<u8>>, p: Seq<u8>)
    ensures
        spec_locs_desc(seq![k] + s, p) == spec_locs_desc(s, p) + (if spec_wf_key(k, p) {
            seq![spec_key_locator(k, p.len() as int)]
        } else {
            Seq::<EventLocator>::empty()
        }),
    decreases s.len(),
{
    let c = seq![k] + s;
    let tail: Seq<EventLocator> = if spec_wf_key(k, p) {
        seq![spec_key_locator(k, p.len() as int)]
    } else {
        Seq::<EventLocator>::empty()
    };
    if s.len() == 0 {
        assert(c.len() == 1);
        assert(c.last() == k);
        assert(c.drop_last() =~= Seq::<Seq<u8>>::empty());
        assert(spec_locs_desc(Seq::<Seq<u8>>::empty(), p) == Seq::<EventLocator>::empty());
        assert(spec_locs_desc(s, p) == Seq::<EventLocator>::empty());
        if spec_wf_key(k, p) {
            assert(spec_locs_desc(c, p) == seq![spec_key_locator(k, p.len() as int)]
                + spec_locs_desc(c.drop_last(), p));
            assert(spec_locs_desc(c, p) =~= spec_locs_desc(s, p) + tail);
        } else {
            assert(spec_locs_desc(c, p) == spec_locs_desc(c.drop_last(), p));
            assert(spec_locs_desc(c, p) =~= spec_locs_desc(s, p) + tail);
        }
    } else {
        assert(c.last() == s.last());
        assert(c.drop_last() =~= seq![k] + s.drop_last());
        lemma_locs_desc_prepend(k, s.drop_last(), p);
        assert(spec_locs_desc(c.drop_last(), p) == spec_locs_desc(s.drop_last(), p) + tail);
        if spec_wf_key(s.last(), p) {
            let h = seq![spec_key_locator(s.last(), p.len() as int)];
            assert(spec_locs_desc(c, p) == h + spec_locs_desc(c.drop_last(), p));
            assert(spec_locs_desc(s, p) == h + spec_locs_desc(s.drop_last(), p));
            assert(h + (spec_locs_desc(s.drop_last(), p) + tail) =~= (h + spec_locs_desc(
                s.drop_last(),
                p,
            )) + tail);
        } else {
            assert(spec_locs_desc(c, p) == spec_locs_desc(c.drop_last(), p));
            assert(spec_locs_desc(s, p) == spec_locs_desc(s.drop_last(), p));
        }
    }
}

/// Every listed locator comes from a well-formed key of the scan.
proof fn lemma_locs_desc_membership(s: Seq<Seq<u8>>, p: Seq<u8>, t: int)
    requires
        0 <= t < spec_locs_desc(s, p).len(),
    ensures
        exists|i: int|
            0 <= i < s.len() && spec_wf_key(#[trigger] s[i], p) && spec_locs_desc(s, p)[t]
                == spec_key_locator(s[i], p.len() as int),
    decreases s.len(),
{
    if s.len() > 0 {
        if spec_wf_key(s.last(), p) && t == 0 {
            assert(0 <= s.len() - 1 < s.len() && spec_wf_key(s[s.len() - 1], p) && spec_locs_desc(
                s,
                p,
            )[t] == spec_key_locator(s[s.len() - 1], p.len() as int));
        } else {
            let t2: int = if spec_wf_key(s.last(), p) {
                t - 1
            } else {
                t
            };
            lemma_locs_desc_membership(s.drop_last(), p, t2);
            let i = choose|i: int|
                0 <= i < s.drop_last().len() && spec_wf_key(#[trigger] s.drop_last()[i], p)
                    && spec_locs_desc(s.drop_last(), p)[t2] == spec_key_locator(
                    s.drop_last()[i],
                    p.len() as int,
                );
            assert(s.drop_last()[i] == s[i]);
            assert(spec_locs_desc(s, p)[t] == spec_locs_desc(s.drop_last(), p)[t2]);
        }
    }
}

/// Every well-formed key of the scan contributes its locator.
proof fn lemma_locs_desc_contains(s: Seq<Seq<u8>>, p: Seq<u8>, i: int)
    requires
        0 <= i < s.len(),
        spec_wf_key(s[i], p),
    ensures
        spec_locs_desc(s, p).contains(spec_key_locator(s[i], p.len() as int)),
    decreases s.len(),
{
    if i == s.len() - 1 {
        assert(spec_locs_desc(s, p)[0] == spec_key_locator(s[i], p.len() as int));
    } else {
        lemma_locs_desc_contains(s.drop_last(), p, i);
        let d = spec_locs_desc(s.drop_last(), p);
        let t = choose|t: int| 0 <= t < d.len() && d[t] == spec_key_locator(s[i], p.len() as int);
        if spec_wf_key(s.last(), p) {
            assert(spec_locs_desc(s, p)[t + 1] == d[t]);
        } else {
            assert(spec_locs_desc(s, p)[t] == d[t]);
        }
    }
}

/// Over a sorted scan, the listed locators strictly descend.
proof fn lemma_locs_desc_sorted(s: Seq<Seq<u8>>, p: Seq<u8>)
    requires
        forall|i: int, j: int| 0 <= i < j < s.len() ==> lex_lt(#[trigger] s[i], #[trigger] s[j]),
    ensures
        forall|t1: int, t2: int|
            0 <= t1 < t2 < spec_locs_desc(s, p).len() ==> spec_locator_lt(
                #[trigger] spec_locs_desc(s, p)[t2],
                #[trigger] spec_locs_desc(s, p)[t1],
            ),
    decreases s.len(),
{
    if s.len() > 0 {
        lemma_locs_desc_sorted(s.drop_last(), p);
        let d = spec_locs_desc(s, p);
        let dprev = spec_locs_desc(s.drop_last(), p);
        assert forall|t1: int, t2: int| 0 <= t1 < t2 < d.len() implies spec_locator_lt(
            #[trigger] d[t2],
            #[trigger] d[t1],
        ) by {
            if spec_wf_key(s.last(), p) {
                assert(d =~= seq![spec_key_locator(s.last(), p.len() as int)] + dprev);
                if t1 == 0 {
                    lemma_locs_desc_membership(s.drop_last(), p, t2 - 1);
                    let i = choose|i: int|
                        0 <= i < s.drop_last().len() && spec_wf_key(#[trigger] s.drop_last()[i], p)
                            && dprev[t2 - 1] == spec_key_locator(s.drop_last()[i], p.len() as int);
                    assert(s.drop_last()[i] == s[i]);
                    assert(lex_lt(s[i], s[s.len() - 1]));
                    lemma_wf_key_order(s[i], s[s.len() - 1], p);
                    assert(d[t2] == dprev[t2 - 1]);
                    assert(d[t1] == spec_key_locator(s.last(), p.len() as int));
                } else {
                    assert(d[t1] == dprev[t1 - 1]);
                    assert(d[t2] == dprev[t2 - 1]);
                }
            } else {
                assert(d == dprev);
            }
        }
    }
}

/// Scans one tree for the identifier's entries and returns up to one hundred
/// locators, most recent first.
pub fn collect_locators(tree: &StoreTree, prefix: &Vec<u8>) -> (r: Result<
    Vec<EventLocator>,
    IndexError,
>)
    requires
        prefix@.len() + 8 <= usize::MAX,
    ensures
        r matches Ok(evs) ==> spec_query_result(tree@, prefix@, evs@),
{
    let ks = match store_scan_prefix_keys(tree, prefix) {
        Ok(ks) => ks,
        Err(e) => {
            return Err(IndexError::Store(e));
        },
    };
    let ghost ksd: Seq<Seq<u8>> = Seq::new(ks@.len() as nat, |i: int| ks@[i]@);
    let ghost p: Seq<u8> = prefix@;
    let ghost m: Map<Seq<u8>, Seq<u8>> = tree@;
    let mut evs: Vec<EventLocator> = Vec::new();
    let mut idx: usize = ks.len();
    while 0 < idx && evs.len() < 100
        invariant
            idx <= ksd.len(),
            ksd.len() == ks@.len(),
            ksd == Seq::new(ks@.len() as nat, |i: int| ks@[i]@),
            p == prefix@,
            p.len() + 8 <= usize::MAX,
            forall|i: int| 0 <= i < ksd.len() ==> is_prefix_of(p, #[trigger] ksd[i]),
            evs@ == spec_locs_desc(ksd.subrange(idx as int, ksd.len() as int), p),
            evs@.len() <= 100,
        decreases idx,
    {
        idx = idx - 1;
        let k = &ks[idx];
        let ghost processed: Seq<Seq<u8>> = ksd.subrange(idx as int + 1, ksd.len() as int);
        proof {
            assert(ksd[idx as int] == ks@[idx as int]@);
            assert(ksd.subrange(idx as int, ksd.len() as int) =~= seq![ksd[idx as int]]
                + processed);
            lemma_locs_desc_prepend(ksd[idx as int], processed, p);
            assert(evs@ == spec_locs_desc(processed, p));
        }
        if k.len() == prefix.len() + 8 {
            let plen = prefix.len();
            let b = u32_from_be_4(k[plen], k[plen + 1], k[plen + 2], k[plen + 3]);
            let e = u32_from_be_4(k[plen + 4], k[plen + 5], k[plen + 6], k[plen + 7]);
            proof {
                assert(spec_wf_key(ksd[idx as int], p));
                assert(seq![k@[plen as int], k@[plen as int + 1], k@[plen as int + 2], k@[plen as int + 3]]
                    =~= k@.subrange(plen as int, plen as int + 4));
                assert(seq![k@[plen as int + 4], k@[plen as int + 5], k@[plen as int + 6], k@[plen as int + 7]]
                    =~= k@.subrange(plen as int + 4, plen as int + 8));
            }
            let loc = EventLocator { block_number: b, event_index: e };
            proof {
                assert(loc == spec_key_locator(ksd[idx as int], p.len() as int));
            }
            evs.push(loc);
            proof {
                assert(evs@ =~= spec_locs_desc(processed, p) + seq![
                    spec_key_locator(ksd[idx as int], p.len() as int),
                ]);
            }
        } else {
            proof {
                assert(!spec_wf_key(ksd[idx as int], p));
                assert(evs@ =~= spec_locs_desc(processed, p) + Seq::<EventLocator>::empty());
            }
        }
    }
    proof {
        let done = ksd.subrange(idx as int, ksd.len() as int);
        lemma_locs_desc_sorted(done, p);
        assert forall|i: int| 0 <= i < evs@.len() implies spec_locator_set(m, p).contains(
            #[trigger] evs@[i],
        ) by {
            lemma_locs_desc_membership(done, p, i);
            let t = choose|t: int|
                0 <= t < done.len() && spec_wf_key(#[trigger] done[t], p) && evs@[i]
                    == spec_key_locator(done[t], p.len() as int);
            lemma_wf_key_decomposition(done[t], p);
            assert(m.contains_key(done[t]));
        }
        assert forall|loc: EventLocator| #[trigger]
            spec_locator_set(m, p).contains(loc) implies (evs@.contains(loc) || (evs@.len() == 100
            && spec_locator_lt(loc, evs@[99]))) by {
            let ck = spec_composite_key(p, loc.block_number, loc.event_index);
            assert(m.contains_key(ck));
            lemma_composite_key_parts(p, loc.block_number, loc.event_index);
            assert(is_prefix_of(p, ck));
            let i = choose|i: int| 0 <= i < ks@.len() && #[trigger] ks@[i]@ == ck;
            assert(ksd[i] == ck);
            assert(spec_wf_key(ksd[i], p));
            assert(spec_key_locator(ksd[i], p.len() as int) == loc) by {
                lemma_composite_key_parts(p, loc.block_number, loc.event_index);
            }
            if i >= idx {
                lemma_locs_desc_contains(done, p, i - idx);
                assert(done[i - idx] == ksd[i]);
                assert(evs@.contains(loc));
            } else {
                assert(idx > 0);
                assert(evs@.len() == 100);
                lemma_locs_desc_membership(done, p, 99);
                let t99 = choose|t: int|
                    0 <= t < done.len() && spec_wf_key(#[trigger] done[t], p) && evs@[99]
                        == spec_key_locator(done[t], p.len() as int);
                assert(done[t99] == ksd[idx + t99]);
                assert(lex_lt(ksd[i], ksd[idx + t99]));
                lemma_wf_key_order(ksd[i], ksd[idx + t99], p);
            }
        }
    }
    Ok(evs)
}

/// The prefix of any identifier fits in a machine word with room for the
/// locator suffix.
proof fn lemma_key_prefix_len(k: Key)
    ensures
        spec_key_prefix(k).len() <= 32,
{
}

/// Serves a `GetEvents` point query: a reverse prefix scan of the
/// identifier's tree, capped at one hundred locators, most recent first.
pub fn process_msg_get_events(trees: &Trees, key: Key) -> (r: Result<ResponseMessage, IndexError>)
    ensures
        r matches Ok(resp) ==> resp matches ResponseMessage::Events { key: rk, events } && rk
            == key && spec_query_result(
            spec_kind_map(trees@, key),
            spec_key_prefix(key),
            events@,
        ),
{
    let prefix = key_prefix(&key);
    proof {
        lemma_key_prefix_len(key);
    }
    let tree = match &key {
        Key::AccountId(_) => &trees.account_id,
        Key::AccountIndex(_) => &trees.account_index,
        Key::AuctionIndex(_) => &trees.auction_index,
        Key::BountyIndex(_) => &trees.bounty_index,
        Key::CandidateHash(_) => &trees.candidate_hash,
        Key::EraIndex(_) => &trees.era_index,
        Key::MessageId(_) => &trees.message_id,
        Key::ParaId(_) => &trees.para_id,
        Key::PoolId(_) => &trees.pool_id,
        Key::PreimageHash(_) => &trees.preimage_hash,
        Key::ProposalHash(_) => &trees.proposal_hash,
        Key::ProposalIndex(_) => &trees.proposal_index,
        Key::RefIndex(_) => &trees.ref_index,
        Key::RegistrarIndex(_) => &trees.registrar_index,
        Key::SessionIndex(_) => &trees.session_index,
        Key::TipHash(_) => &trees.tip_hash,
        Key::Variant(_, _) => &trees.variant,
    };
    let events = match collect_locators(tree, &prefix) {
        Ok(evs) => evs,
        Err(e) => {
            return Err(e);
        },
    };
    Ok(ResponseMessage::Events { key, events })
}

/// The status response carried by the progress metadata of the root tree.
pub open spec fn spec_status_response(v: TreesView) -> ResponseMessage {
    ResponseMessage::Status {
        last_head_block: spec_progress_value(v.root, spec_last_head_block_key()),
        last_batch_block: spec_progress_value(v.root, spec_last_batch_block_key()),
        batch_indexing_complete: spec_progress_flag(v.root, spec_batch_indexing_complete_key()),
    }
}

/// Serves a `Status` request from the progress metadata.
pub fn process_msg_status(trees: &Trees) -> (r: Result<ResponseMessage, IndexError>)
    ensures
        r matches Ok(resp) ==> resp == spec_status_response(trees@),
{
    let head_key = last_head_block_key();
    let batch_key = last_batch_block_key();
    let flag_key = batch_indexing_complete_key();
    let last_head_block = match read_progress_value(&trees.root, &head_key) {
        Ok(n) => n,
        Err(e) => {
            return Err(e);
        },
    };
    let last_batch_block = match read_progress_value(&trees.root, &batch_key) {
        Ok(n) => n,
        Err(e) => {
            return Err(e);
        },
    };
    let batch_indexing_complete = match read_progress_flag(&trees.root, &flag_key) {
        Ok(b) => b,
        Err(e) => {
            return Err(e);
        },
    };
    Ok(ResponseMessage::Status { last_head_block, last_batch_block, batch_indexing_complete })
}

/// Serves a `Variants` request: the schema catalog, as fetched and shaped
/// from chain metadata by the embedding program.
pub fn process_msg_variants(pallets: Vec<PalletMeta>) -> (r: ResponseMessage)
    ensures
        r == ResponseMessage::Variants(pallets),
{
    ResponseMessage::Variants(pallets)
}

/// Handles one decoded client request.  Status, schema, and point queries
/// are answered directly; a subscription request is answered `Subscribed`
/// and the key to register is handed back so the connection's channel can be
/// attached to the multiplexer.
pub fn process_msg(trees: &Trees, msg: RequestMessage, pallets: Vec<PalletMeta>) -> (r: Result<
    (ResponseMessage, Option<Key>),
    IndexError,
>)
    ensures
        r matches Ok((resp, sub)) ==> match msg {
            RequestMessage::Status => resp == spec_status_response(trees@) && sub is None,
            RequestMessage::Variants => resp == ResponseMessage::Variants(pallets) && sub is None,
            RequestMessage::GetEvents { key } => sub is None && (resp matches
            ResponseMessage::Events { key: rk, events } && rk == key && spec_query_result(
                spec_kind_map(trees@, key),
                spec_key_prefix(key),
                events@,
            )),
            RequestMessage::SubscribeEvents { key } => resp == ResponseMessage::Subscribed && sub
                == Some(key),
        },
{
    match msg {
        RequestMessage::Status => {
            match process_msg_status(trees) {
                Ok(resp) => Ok((resp, None)),
                Err(e) => Err(e),
            }
        },
        RequestMessage::Variants => Ok((process_msg_variants(pallets), None)),
        RequestMessage::GetEvents { key } => {
            match process_msg_get_events(trees, key) {
                Ok(resp) => Ok((resp, None)),
                Err(e) => Err(e),
            }
        },
        RequestMessage::SubscribeEvents { key } => Ok((ResponseMessage::Subscribed, Some(key))),
    }
}

/// A client connection's lifecycle.
#[derive(Debug, Clone, Copy, PartialEq, Eq, Structural)]
pub enum ConnState {
    Accepted,
    Open,
    Closed,
}

/// What a connection observes.
#[derive(Debug, Clone, Copy)]
pub enum ConnEvent {
    HandshakeComplete,
    RequestDecoded,
    MalformedFrame,
    Disconnected,
}

/// The connection state machine: a completed handshake opens the
/// connection; a disconnect closes it; a malformed frame is logged and the
/// offending frame ignored, the connection stays open.
pub open spec fn spec_conn_step(s: ConnState, e: ConnEvent) -> ConnState {
    match (s, e) {
        (ConnState::Accepted, ConnEvent::HandshakeComplete) => ConnState::Open,
        (_, ConnEvent::Disconnected) => ConnState::Closed,
        (s, _) => s,
    }
}

/// Advances a connection's state on one observed event.  A malformed frame
/// never closes an open connection: the next well-formed request is still
/// served.
pub fn conn_step(s: ConnState, e: ConnEvent) -> (r: ConnState)
    ensures
        r == spec_conn_step(s, e),
        s is Open && !(e is Disconnected) ==> r is Open,
{
    match (s, e) {
        (ConnState::Accepted, ConnEvent::HandshakeComplete) => ConnState::Open,
        (_, ConnEvent::Disconnected) => ConnState::Closed,
        (ConnState::Accepted, _) => ConnState::Accepted,
        (ConnState::Open, _) => ConnState::Open,
        (ConnState::Closed, _) => ConnState::Closed,
    }
}

} // verus!
