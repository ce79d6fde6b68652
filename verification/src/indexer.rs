//! The indexer: writes one composite-key entry per identifier referenced by
//! an event, plus a variant-kind entry, and advances the progress metadata
//! once a whole block is indexed.

use vstd::prelude::*;

use crate::codec::{composite_key, spec_composite_key, spec_u32_to_be_bytes};
use crate::shared::{
    event_identifiers, event_value, key_prefix, spec_event_identifiers, spec_event_value,
    spec_key_prefix, Event, EventLocator, Key,
};
use crate::store::{
    last_batch_block_key, last_head_block_key, spec_last_batch_block_key,
    spec_last_head_block_key, spec_progress_value, store_flush, store_insert, update_progress,
    IndexError, Trees, TreesView,
};

verus! {

/// The store with one entry added for identifier `k`: the composite key of
/// `(k, block_number, event_index)` mapped to `value` in the tree of `k`'s
/// kind.
pub open spec fn spec_index_entry(
    v: TreesView,
    k: Key,
    block_number: u32,
    event_index: u32,
    value: Seq<u8>,
) -> TreesView {
    let ck = spec_composite_key(spec_key_prefix(k), block_number, event_index);
    match k {
        Key::AccountId(_) => TreesView { account_id: v.account_id.insert(ck, value), ..v },
        Key::AccountIndex(_) => TreesView {
            account_index: v.account_index.insert(ck, value),
            ..v
        },
        Key::AuctionIndex(_) => TreesView {
            auction_index: v.auction_index.insert(ck, value),
            ..v
        },
        Key::BountyIndex(_) => TreesView { bounty_index: v.bounty_index.insert(ck, value), ..v },
        Key::CandidateHash(_) => TreesView {
            candidate_hash: v.candidate_hash.insert(ck, value),
            ..v
        },
        Key::EraIndex(_) => TreesView { era_index: v.era_index.insert(ck, value), ..v },
        Key::MessageId(_) => TreesView { message_id: v.message_id.insert(ck, value), ..v },
        Key::ParaId(_) => TreesView { para_id: v.para_id.insert(ck, value), ..v },
        Key::PoolId(_) => TreesView { pool_id: v.pool_id.insert(ck, value), ..v },
        Key::PreimageHash(_) => TreesView {
            preimage_hash: v.preimage_hash.insert(ck, value),
            ..v
        },
        Key::ProposalHash(_) => TreesView {
            proposal_hash: v.proposal_hash.insert(ck, value),
            ..v
        },
        Key::ProposalIndex(_) => TreesView {
            proposal_index: v.proposal_index.insert(ck, value),
            ..v
        },
        Key::RefIndex(_) => TreesView { ref_index: v.ref_index.insert(ck, value), ..v },
        Key::RegistrarIndex(_) => TreesView {
            registrar_index: v.registrar_index.insert(ck, value),
            ..v
        },
        Key::SessionIndex(_) => TreesView {
            session_index: v.session_index.insert(ck, value),
            ..v
        },
        Key::TipHash(_) => TreesView { tip_hash: v.tip_hash.insert(ck, value), ..v },
        Key::Variant(_, _) => TreesView { variant: v.variant.insert(ck, value), ..v },
    }
}

/// The store after indexing each identifier in `ks`, in order.
pub open spec fn spec_index_entries(
    v: TreesView,
    ks: Seq<Key>,
    block_number: u32,
    event_index: u32,
    value: Seq<u8>,
) -> TreesView
    decreases ks.len(),
{
    if ks.len() == 0 {
        v
    } else {
        spec_index_entry(
            spec_index_entries(v, ks.drop_last(), block_number, event_index, value),
            ks.last(),
            block_number,
            event_index,
            value,
        )
    }
}

/// Writes one index entry into the tree of the identifier's kind.
pub fn insert_entry(
    trees: &mut Trees,
    k: &Key,
    block_number: u32,
    event_index: u32,
    value: &Vec<u8>,
) -> (r: Result<(), IndexError>)
    ensures
        r is Ok ==> final(trees)@ == spec_index_entry(
            old(trees)@,
            *k,
            block_number,
            event_index,
            value@,
        ),
{
    let prefix = key_prefix(k);
    let ck = composite_key(&prefix, block_number, event_index);
    let res = match k {
        Key::AccountId(_) => store_insert(&mut trees.account_id, &ck, value),
        Key::AccountIndex(_) => store_insert(&mut trees.account_index, &ck, value),
        Key::AuctionIndex(_) => store_insert(&mut trees.auction_index, &ck, value),
        Key::BountyIndex(_) => store_insert(&mut trees.bounty_index, &ck, value),
        Key::CandidateHash(_) => store_insert(&mut trees.candidate_hash, &ck, value),
        Key::EraIndex(_) => store_insert(&mut trees.era_index, &ck, value),
        Key::MessageId(_) => store_insert(&mut trees.message_id, &ck, value),
        Key::ParaId(_) => store_insert(&mut trees.para_id, &ck, value),
        Key::PoolId(_) => store_insert(&mut trees.pool_id, &ck, value),
        Key::PreimageHash(_) => store_insert(&mut trees.preimage_hash, &ck, value),
        Key::ProposalHash(_) => store_insert(&mut trees.proposal_hash, &ck, value),
        Key::ProposalIndex(_) => store_insert(&mut trees.proposal_index, &ck, value),
        Key::RefIndex(_) => store_insert(&mut trees.ref_index, &ck, value),
        Key::RegistrarIndex(_) => store_insert(&mut trees.registrar_index, &ck, value),
        Key::SessionIndex(_) => store_insert(&mut trees.session_index, &ck, value),
        Key::TipHash(_) => store_insert(&mut trees.tip_hash, &ck, value),
        Key::Variant(_, _) => store_insert(&mut trees.variant, &ck, value),
    };
    match res {
        Ok(()) => {
            assert(trees@ =~= spec_index_entry(
                old(trees)@,
                *k,
                block_number,
                event_index,
                value@,
            ));
            Ok(())
        },
        Err(e) => Err(IndexError::Store(e)),
    }
}

/// Writes one index entry per identifier, in order.
pub fn write_entries(
    trees: &mut Trees,
    ks: &Vec<Key>,
    block_number: u32,
    event_index: u32,
    value: &Vec<u8>,
) -> (r: Result<(), IndexError>)
    ensures
        r is Ok ==> final(trees)@ == spec_index_entries(
            old(trees)@,
            ks@,
            block_number,
            event_index,
            value@,
        ),
{
    let ghost orig: TreesView = trees@;
    let mut idx: usize = 0;
    while idx < ks.len()
        invariant
            idx <= ks@.len(),
            trees@ == spec_index_entries(orig, ks@.take(idx as int), block_number, event_index, value@),
        decreases ks@.len() - idx,
    {
        match insert_entry(trees, &ks[idx], block_number, event_index, value) {
            Ok(()) => {},
            Err(e) => {
                return Err(e);
            },
        }
        proof {
            assert(ks@.take(idx as int + 1).drop_last() =~= ks@.take(idx as int));
            assert(ks@.take(idx as int + 1).last() == ks@[idx as int]);
        }
        idx = idx + 1;
    }
    proof {
        assert(ks@.take(ks@.len() as int) =~= ks@);
    }
    Ok(())
}

/// One decoded event of a block, tagged with the chain's pallet and variant
/// indices for the variant-kind entry.
#[derive(Debug, Clone, Copy, PartialEq)]
pub struct BlockEvent {
    pub pallet_index: u8,
    pub variant_index: u8,
    pub event: Event,
}

/// All entries one event produces: its referenced identifiers, per the
/// dispatch table, plus the variant-kind entry.
pub open spec fn spec_event_entries(e: BlockEvent) -> Seq<Key> {
    spec_event_identifiers(e.event).push(Key::Variant(e.pallet_index, e.variant_index))
}

/// Indexes one event: dispatches to the event's pallet, writes the
/// variant-kind entry, and returns every key written, for publication to
/// subscribers.
pub fn index_event(trees: &mut Trees, block_number: u32, event_index: u32, ev: &BlockEvent) -> (r:
    Result<Vec<Key>, IndexError>)
    ensures
        r matches Ok(ks) ==> {
            &&& ks@ == spec_event_entries(*ev)
            &&& final(trees)@ == spec_index_entries(
                old(trees)@,
                spec_event_entries(*ev),
                block_number,
                event_index,
                spec_event_value(ev.event),
            )
        },
{
    let res = match &ev.event {
        Event::BagsList(p) => crate::pallets::bags_list::bags_list_index_event(
            trees,
            block_number,
            event_index,
            p,
        ),
        Event::Balances(p) => crate::pallets::balances::balances_index_event(
            trees,
            block_number,
            event_index,
            p,
        ),
        Event::Claims(p) => crate::pallets::claims::claims_index_event(
            trees,
            block_number,
            event_index,
            p,
        ),
        Event::Collective(p) => crate::pallets::collective::collective_index_event(
            trees,
            block_number,
            event_index,
            p,
        ),
        Event::System(p) => crate::pallets::system::system_index_event(
            trees,
            block_number,
            event_index,
            p,
        ),
        Event::TransactionPayment(p) => crate::pallets::transaction_payment::transaction_payment_index_event(
            trees,
            block_number,
            event_index,
            p,
        ),
        Event::Vesting(p) => crate::pallets::vesting::vesting_index_event(
            trees,
            block_number,
            event_index,
            p,
        ),
    };
    match res {
        Ok(()) => {},
        Err(e) => {
            return Err(e);
        },
    }
    assert(trees@ == spec_index_entries(
        old(trees)@,
        spec_event_identifiers(ev.event),
        block_number,
        event_index,
        spec_event_value(ev.event),
    ));
    let vkey = Key::Variant(ev.pallet_index, ev.variant_index);
    let value = event_value(&ev.event);
    match insert_entry(trees, &vkey, block_number, event_index, &value) {
        Ok(()) => {},
        Err(e) => {
            return Err(e);
        },
    }
    let mut ids = event_identifiers(&ev.event);
    ids.push(vkey);
    proof {
        let entries = spec_event_entries(*ev);
        assert(entries.drop_last() =~= spec_event_identifiers(ev.event));
        assert(entries.last() == vkey);
        assert(ids@ =~= entries);
    }
    Ok(ids)
}

/// The trees after indexing every event of the block, in order of position.
pub open spec fn spec_index_events(v: TreesView, block_number: u32, evs: Seq<BlockEvent>) -> TreesView
    decreases evs.len(),
{
    if evs.len() == 0 {
        v
    } else {
        spec_index_entries(
            spec_index_events(v, block_number, evs.drop_last()),
            spec_event_entries(evs.last()),
            block_number,
            (evs.len() - 1) as u32,
            spec_event_value(evs.last().event),
        )
    }
}

/// The progress key a stream writes: head subscription or historical
/// back-fill.
pub open spec fn spec_progress_key(head: bool) -> Seq<u8> {
    if head {
        spec_last_head_block_key()
    } else {
        spec_last_batch_block_key()
    }
}

/// The root map after the monotone progress update: the counter moves to
/// `block` only when that is an advance.
pub open spec fn spec_update_progress_map(
    m: Map<Seq<u8>, Seq<u8>>,
    key: Seq<u8>,
    block: u32,
) -> Map<Seq<u8>, Seq<u8>> {
    if block > spec_progress_value(m, key) {
        m.insert(key, spec_u32_to_be_bytes(block))
    } else {
        m
    }
}

/// The whole store after a block commits: every event indexed, then the
/// stream's progress counter advanced.
pub open spec fn spec_index_block(
    v: TreesView,
    block_number: u32,
    evs: Seq<BlockEvent>,
    head: bool,
) -> TreesView {
    let after = spec_index_events(v, block_number, evs);
    TreesView {
        root: spec_update_progress_map(after.root, spec_progress_key(head), block_number),
        ..after
    }
}

/// Each key of `ks` paired with one locator.
pub open spec fn spec_publications_of(
    ks: Seq<Key>,
    block_number: u32,
    event_index: u32,
) -> Seq<(Key, EventLocator)> {
    ks.map_values(|k: Key| (k, EventLocator { block_number, event_index }))
}

/// The publication list for one indexed event: each written key paired with
/// the event's locator.
pub open spec fn spec_event_publications(e: BlockEvent, block_number: u32, event_index: u32) -> Seq<
    (Key, EventLocator),
> {
    spec_publications_of(spec_event_entries(e), block_number, event_index)
}

/// The publication list of a whole block, in `(block, event_index)` order.
pub open spec fn spec_block_publications(block_number: u32, evs: Seq<BlockEvent>) -> Seq<
    (Key, EventLocator),
>
    decreases evs.len(),
{
    if evs.len() == 0 {
        Seq::empty()
    } else {
        spec_block_publications(block_number, evs.drop_last()) + spec_event_publications(
            evs.last(),
            block_number,
            (evs.len() - 1) as u32,
        )
    }
}

/// Indexes every event of one block, in order, then advances the stream's
/// progress counter and flushes.  The counter never decreases, and it
/// advances only in the same call that wrote every entry of the block; on an
/// error the call returns before touching the counter, so progress never
/// points past a partially indexed block.
pub fn index_block(
    trees: &mut Trees,
    block_number: u32,
    events: &Vec<BlockEvent>,
    head: bool,
) -> (r: Result<Vec<(Key, EventLocator)>, IndexError>)
    requires
        events@.len() <= 0xffff_ffff,
    ensures
        r matches Ok(pubs) ==> {
            &&& final(trees)@ == spec_index_block(old(trees)@, block_number, events@, head)
            &&& pubs@ == spec_block_publications(block_number, events@)
        },
{
    let ghost orig: TreesView = trees@;
    let mut pubs: Vec<(Key, EventLocator)> = Vec::new();
    let mut j: usize = 0;
    while j < events.len()
        invariant
            j <= events@.len(),
            events@.len() <= 0xffff_ffff,
            trees@ == spec_index_events(orig, block_number, events@.take(j as int)),
            pubs@ == spec_block_publications(block_number, events@.take(j as int)),
        decreases events@.len() - j,
    {
        let ids = match index_event(trees, block_number, j as u32, &events[j]) {
            Ok(ids) => ids,
            Err(e) => {
                return Err(e);
            },
        };
        let loc = EventLocator { block_number, event_index: j as u32 };
        let ghost pubs_before = pubs@;
        let mut m: usize = 0;
        while m < ids.len()
            invariant
                m <= ids@.len(),
                loc == (EventLocator { block_number, event_index: j as u32 }),
                pubs@ == pubs_before + spec_publications_of(
                    ids@.take(m as int),
                    block_number,
                    j as u32,
                ),
            decreases ids@.len() - m,
        {
            pubs.push((ids[m], loc));
            proof {
                assert(spec_publications_of(ids@.take(m as int + 1), block_number, j as u32)
                    =~= spec_publications_of(ids@.take(m as int), block_number, j as u32).push(
                    (ids@[m as int], loc),
                ));
            }
            m = m + 1;
        }
        proof {
            assert(ids@.take(ids@.len() as int) =~= ids@);
            let taken = events@.take(j as int + 1);
            assert(taken.drop_last() =~= events@.take(j as int));
            assert(taken.last() == events@[j as int]);
            assert(pubs@ == pubs_before + spec_event_publications(
                events@[j as int],
                block_number,
                j as u32,
            ));
        }
        j = j + 1;
    }
    proof {
        assert(events@.take(events@.len() as int) =~= events@);
    }
    let key = if head {
        last_head_block_key()
    } else {
        last_batch_block_key()
    };
    match update_progress(&mut trees.root, &key, block_number) {
        Ok(()) => {},
        Err(e) => {
            return Err(e);
        },
    }
    match store_flush(&trees.root) {
        Ok(_) => {},
        Err(e) => {
            return Err(IndexError::Store(e));
        },
    }
    assert(trees@ =~= spec_index_block(orig, block_number, events@, head));
    Ok(pubs)
}

/// Where back-fill resumes: one past the last batch-indexed block when one
/// is recorded, else the configured start height.
pub fn backfill_start(last_batch_block: Option<u32>, configured: Option<u32>) -> (r: Option<u32>)
    ensures
        r == match last_batch_block {
            Some(b) => if b < 0xffff_ffffu32 {
                Some((b + 1) as u32)
            } else {
                None::<u32>
            },
            None => configured,
        },
{
    match last_batch_block {
        Some(b) => {
            if b < 0xffff_ffff {
                Some(b + 1)
            } else {
                None
            }
        },
        None => configured,
    }
}

/// The map of the tree that holds entries of `k`'s kind.
pub open spec fn spec_kind_map(v: TreesView, k: Key) -> Map<Seq<u8>, Seq<u8>> {
    match k {
        Key::AccountId(_) => v.account_id,
        Key::AccountIndex(_) => v.account_index,
        Key::AuctionIndex(_) => v.auction_index,
        Key::BountyIndex(_) => v.bounty_index,
        Key::CandidateHash(_) => v.candidate_hash,
        Key::EraIndex(_) => v.era_index,
        Key::MessageId(_) => v.message_id,
        Key::ParaId(_) => v.para_id,
        Key::PoolId(_) => v.pool_id,
        Key::PreimageHash(_) => v.preimage_hash,
        Key::ProposalHash(_) => v.proposal_hash,
        Key::ProposalIndex(_) => v.proposal_index,
        Key::RefIndex(_) => v.ref_index,
        Key::RegistrarIndex(_) => v.registrar_index,
        Key::SessionIndex(_) => v.session_index,
        Key::TipHash(_) => v.tip_hash,
        Key::Variant(_, _) => v.variant,
    }
}

/// Two identifiers are of the same kind exactly when they land in the same
/// tree.
pub open spec fn spec_same_kind(a: Key, b: Key) -> bool {
    match (a, b) {
        (Key::AccountId(_), Key::AccountId(_)) => true,
        (Key::AccountIndex(_), Key::AccountIndex(_)) => true,
        (Key::AuctionIndex(_), Key::AuctionIndex(_)) => true,
        (Key::BountyIndex(_), Key::BountyIndex(_)) => true,
        (Key::CandidateHash(_), Key::CandidateHash(_)) => true,
        (Key::EraIndex(_), Key::EraIndex(_)) => true,
        (Key::MessageId(_), Key::MessageId(_)) => true,
        (Key::ParaId(_), Key::ParaId(_)) => true,
        (Key::PoolId(_), Key::PoolId(_)) => true,
        (Key::PreimageHash(_), Key::PreimageHash(_)) => true,
        (Key::ProposalHash(_), Key::ProposalHash(_)) => true,
        (Key::ProposalIndex(_), Key::ProposalIndex(_)) => true,
        (Key::RefIndex(_), Key::RefIndex(_)) => true,
        (Key::RegistrarIndex(_), Key::RegistrarIndex(_)) => true,
        (Key::SessionIndex(_), Key::SessionIndex(_)) => true,
        (Key::TipHash(_), Key::TipHash(_)) => true,
        (Key::Variant(_, _), Key::Variant(_, _)) => true,
        _ => false,
    }
}

/// Indexing one entry touches only the tree of its kind.
proof fn lemma_index_entry_kind_map(
    v: TreesView,
    k: Key,
    kind: Key,
    block_number: u32,
    event_index: u32,
    value: Seq<u8>,
)
    ensures
        spec_kind_map(spec_index_entry(v, k, block_number, event_index, value), kind) == if spec_same_kind(k, kind) {
            spec_kind_map(v, kind).insert(
                spec_composite_key(spec_key_prefix(k), block_number, event_index),
                value,
            )
        } else {
            spec_kind_map(v, kind)
        },
{
}

/// A key that indexing a list of identifiers added to a kind's tree is the
/// composite key of one of those identifiers, of that kind.
proof fn lemma_index_entries_kind_map(
    v: TreesView,
    ks: Seq<Key>,
    kind: Key,
    block_number: u32,
    event_index: u32,
    value: Seq<u8>,
    ck: Seq<u8>,
)
    requires
        spec_kind_map(
            spec_index_entries(v, ks, block_number, event_index, value),
            kind,
        ).contains_key(ck),
        !spec_kind_map(v, kind).contains_key(ck),
    ensures
        exists|m: int|
            0 <= m < ks.len() && spec_same_kind(#[trigger] ks[m], kind) && ck
                == spec_composite_key(spec_key_prefix(ks[m]), block_number, event_index),
    decreases ks.len(),
{
    if ks.len() > 0 {
        let prev = spec_index_entries(v, ks.drop_last(), block_number, event_index, value);
        lemma_index_entry_kind_map(prev, ks.last(), kind, block_number, event_index, value);
        if spec_same_kind(ks.last(), kind) && ck == spec_composite_key(
            spec_key_prefix(ks.last()),
            block_number,
            event_index,
        ) {
            assert(0 <= ks.len() - 1 < ks.len() && spec_same_kind(ks[ks.len() - 1], kind) && ck
                == spec_composite_key(
                spec_key_prefix(ks[ks.len() - 1]),
                block_number,
                event_index,
            ));
        } else {
            assert(spec_kind_map(prev, kind).contains_key(ck));
            lemma_index_entries_kind_map(
                v,
                ks.drop_last(),
                kind,
                block_number,
                event_index,
                value,
                ck,
            );
            let m = choose|m: int|
                0 <= m < ks.drop_last().len() && spec_same_kind(
                    #[trigger] ks.drop_last()[m],
                    kind,
                ) && ck == spec_composite_key(
                    spec_key_prefix(ks.drop_last()[m]),
                    block_number,
                    event_index,
                );
            assert(ks.drop_last()[m] == ks[m]);
        }
    }
}

/// No phantom entries: a key present in a kind's tree after a block commits
/// was either present before, or is the composite key of an identifier that
/// the dispatch table extracts from one of the block's events (or of that
/// event's variant entry), at that event's locator.
pub proof fn lemma_no_phantom_entries(
    v: TreesView,
    block_number: u32,
    evs: Seq<BlockEvent>,
    head: bool,
    kind: Key,
    ck: Seq<u8>,
)
    requires
        spec_kind_map(spec_index_block(v, block_number, evs, head), kind).contains_key(ck),
        !spec_kind_map(v, kind).contains_key(ck),
    ensures
        exists|j: int, m: int|
            {
                &&& 0 <= j < evs.len()
                &&& 0 <= m < spec_event_entries(#[trigger] evs[j]).len()
                &&& spec_same_kind(#[trigger] spec_event_entries(evs[j])[m], kind)
                &&& ck == spec_composite_key(
                    spec_key_prefix(spec_event_entries(evs[j])[m]),
                    block_number,
                    j as u32,
                )
            },
{
    assert(spec_kind_map(spec_index_block(v, block_number, evs, head), kind) == spec_kind_map(
        spec_index_events(v, block_number, evs),
        kind,
    ));
    lemma_no_phantom_entries_events(v, block_number, evs, kind, ck);
}

proof fn lemma_no_phantom_entries_events(
    v: TreesView,
    block_number: u32,
    evs: Seq<BlockEvent>,
    kind: Key,
    ck: Seq<u8>,
)
    requires
        spec_kind_map(spec_index_events(v, block_number, evs), kind).contains_key(ck),
        !spec_kind_map(v, kind).contains_key(ck),
    ensures
        exists|j: int, m: int|
            {
                &&& 0 <= j < evs.len()
                &&& 0 <= m < spec_event_entries(#[trigger] evs[j]).len()
                &&& spec_same_kind(#[trigger] spec_event_entries(evs[j])[m], kind)
                &&& ck == spec_composite_key(
                    spec_key_prefix(spec_event_entries(evs[j])[m]),
                    block_number,
                    j as u32,
                )
            },
    decreases evs.len(),
{
    if evs.len() > 0 {
        let prev = spec_index_events(v, block_number, evs.drop_last());
        let j_last = evs.len() - 1;
        if spec_kind_map(prev, kind).contains_key(ck) {
            lemma_no_phantom_entries_events(v, block_number, evs.drop_last(), kind, ck);
            let (j, m) = choose|j: int, m: int|
                {
                    &&& 0 <= j < evs.drop_last().len()
                    &&& 0 <= m < spec_event_entries(#[trigger] evs.drop_last()[j]).len()
                    &&& spec_same_kind(#[trigger] spec_event_entries(evs.drop_last()[j])[m], kind)
                    &&& ck == spec_composite_key(
                        spec_key_prefix(spec_event_entries(evs.drop_last()[j])[m]),
                        block_number,
                        j as u32,
                    )
                };
            assert(evs.drop_last()[j] == evs[j]);
        } else {
            lemma_index_entries_kind_map(
                prev,
                spec_event_entries(evs.last()),
                kind,
                block_number,
                (evs.len() - 1) as u32,
                spec_event_value(evs.last().event),
                ck,
            );
            let m = choose|m: int|
                0 <= m < spec_event_entries(evs.last()).len() && spec_same_kind(
                    #[trigger] spec_event_entries(evs.last())[m],
                    kind,
                ) && ck == spec_composite_key(
                    spec_key_prefix(spec_event_entries(evs.last())[m]),
                    block_number,
                    (evs.len() - 1) as u32,
                );
            assert(evs.last() == evs[j_last]);
            assert({
                &&& 0 <= j_last < evs.len()
                &&& 0 <= m < spec_event_entries(evs[j_last]).len()
                &&& spec_same_kind(spec_event_entries(evs[j_last])[m], kind)
                &&& ck == spec_composite_key(
                    spec_key_prefix(spec_event_entries(evs[j_last])[m]),
                    block_number,
                    j_last as u32,
                )
            });
        }
    }
}

} // verus!
