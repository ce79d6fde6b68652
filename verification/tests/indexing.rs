//! End-to-end scenarios over a temporary store: indexing, queries,
//! subscriptions, and progress metadata.

use chain_index::indexer::{backfill_start, index_block, index_event, BlockEvent};
use chain_index::pallets::balances::Balances;
use chain_index::pallets::collective::Collective;
use chain_index::pallets::system::System;
use chain_index::service::{
    conn_step, process_msg, process_msg_get_events, process_msg_status, ConnEvent, ConnState,
    RequestMessage, ResponseMessage,
};
use chain_index::shared::{encode_event, Event, EventLocator, Key};
use chain_index::store::{set_batch_indexing_complete, StoreTree, Trees};
use chain_index::subs::SubscriptionTable;

fn make_trees() -> Trees {
    let db = sled::Config::new().temporary(true).open().unwrap();
    let t = |name: &str| StoreTree::new(db.open_tree(name).unwrap());
    Trees {
        root: StoreTree::new((*db).clone()),
        account_id: t("account_id"),
        account_index: t("account_index"),
        auction_index: t("auction_index"),
        bounty_index: t("bounty_index"),
        candidate_hash: t("candidate_hash"),
        era_index: t("era_index"),
        message_id: t("message_id"),
        para_id: t("para_id"),
        pool_id: t("pool_id"),
        preimage_hash: t("preimage_hash"),
        proposal_hash: t("proposal_hash"),
        proposal_index: t("proposal_index"),
        ref_index: t("ref_index"),
        registrar_index: t("registrar_index"),
        session_index: t("session_index"),
        tip_hash: t("tip_hash"),
        variant: t("variant"),
    }
}

fn account(seed: u8) -> [u8; 32] {
    let mut id = [0u8; 32];
    for i in 0..32 {
        id[i] = seed.wrapping_add(i as u8);
    }
    id
}

fn locators(trees: &Trees, key: Key) -> Vec<EventLocator> {
    match process_msg_get_events(trees, key).unwrap() {
        ResponseMessage::Events { events, .. } => events,
        _ => panic!("expected an Events response"),
    }
}

#[test]
fn balance_transfer_indexes_both_accounts() {
    let mut trees = make_trees();
    let a = account(1);
    let b = account(2);
    let ev = BlockEvent {
        pallet_index: 4,
        variant_index: 2,
        event: Event::Balances(Balances::Transfer { from: a, to: b, value: 10 }),
    };
    index_event(&mut trees, 1000, 3, &ev).unwrap();
    let expected = EventLocator { block_number: 1000, event_index: 3 };
    assert_eq!(locators(&trees, Key::AccountId(a)), vec![expected]);
    assert_eq!(locators(&trees, Key::AccountId(b)), vec![expected]);
}

#[test]
fn council_proposal_joins_three_trees() {
    let mut trees = make_trees();
    let x = account(9);
    let h = account(40);
    let ev = BlockEvent {
        pallet_index: 15,
        variant_index: 0,
        event: Event::Collective(Collective::Proposed {
            account: x,
            proposal_index: 7,
            proposal_hash: h,
            threshold: 3,
        }),
    };
    index_event(&mut trees, 2000, 0, &ev).unwrap();
    let expected = EventLocator { block_number: 2000, event_index: 0 };
    assert_eq!(locators(&trees, Key::AccountId(x)), vec![expected]);
    assert_eq!(locators(&trees, Key::ProposalIndex(7)), vec![expected]);
    assert_eq!(locators(&trees, Key::ProposalHash(h)), vec![expected]);
}

#[test]
fn variant_scan_caps_at_one_hundred_newest_first() {
    let mut trees = make_trees();
    let who = account(5);
    for block in 1..=120u32 {
        let events = vec![BlockEvent {
            pallet_index: 5,
            variant_index: 2,
            event: Event::System(System::NewAccount { account: who }),
        }];
        index_block(&mut trees, block, &events, true).unwrap();
    }
    let evs = locators(&trees, Key::Variant(5, 2));
    assert_eq!(evs.len(), 100);
    assert_eq!(evs[0], EventLocator { block_number: 120, event_index: 0 });
    assert_eq!(evs[99], EventLocator { block_number: 21, event_index: 0 });
    for w in evs.windows(2) {
        let newer = (w[0].block_number, w[0].event_index);
        let older = (w[1].block_number, w[1].event_index);
        assert!(older < newer);
    }
    // The account tree observes the same cap.
    let by_account = locators(&trees, Key::AccountId(who));
    assert_eq!(by_account.len(), 100);
    assert_eq!(by_account[0].block_number, 120);
}

#[test]
fn query_unknown_identifier_is_empty() {
    let trees = make_trees();
    assert_eq!(locators(&trees, Key::EraIndex(77)), vec![]);
}

#[test]
fn events_within_a_block_are_ordered_by_event_index() {
    let mut trees = make_trees();
    let who = account(6);
    let events = vec![
        BlockEvent {
            pallet_index: 0,
            variant_index: 0,
            event: Event::System(System::NewAccount { account: who }),
        },
        BlockEvent {
            pallet_index: 0,
            variant_index: 1,
            event: Event::System(System::KilledAccount { account: who }),
        },
    ];
    let pubs = index_block(&mut trees, 50, &events, false).unwrap();
    // Publications preserve (block, event_index) order.
    let locs: Vec<(u32, u32)> = pubs
        .iter()
        .map(|(_, l)| (l.block_number, l.event_index))
        .collect();
    let mut sorted = locs.clone();
    sorted.sort();
    assert_eq!(locs, sorted);
    let evs = locators(&trees, Key::AccountId(who));
    assert_eq!(
        evs,
        vec![
            EventLocator { block_number: 50, event_index: 1 },
            EventLocator { block_number: 50, event_index: 0 },
        ]
    );
}

#[test]
fn status_reports_progress_and_progress_is_monotone() {
    let mut trees = make_trees();
    match process_msg_status(&trees).unwrap() {
        ResponseMessage::Status { last_head_block, last_batch_block, batch_indexing_complete } => {
            assert_eq!(last_head_block, 0);
            assert_eq!(last_batch_block, 0);
            assert!(!batch_indexing_complete);
        },
        _ => panic!("expected a Status response"),
    }
    let who = account(3);
    let events = vec![BlockEvent {
        pallet_index: 0,
        variant_index: 0,
        event: Event::System(System::NewAccount { account: who }),
    }];
    index_block(&mut trees, 5, &events, true).unwrap();
    index_block(&mut trees, 3, &events, true).unwrap();
    index_block(&mut trees, 4, &events, false).unwrap();
    set_batch_indexing_complete(&mut trees.root).unwrap();
    match process_msg_status(&trees).unwrap() {
        ResponseMessage::Status { last_head_block, last_batch_block, batch_indexing_complete } => {
            // Head progress kept its maximum; the late block 3 did not roll
            // it back.
            assert_eq!(last_head_block, 5);
            assert_eq!(last_batch_block, 4);
            assert!(batch_indexing_complete);
        },
        _ => panic!("expected a Status response"),
    }
}

#[test]
fn restart_resumes_after_last_batch_block() {
    assert_eq!(backfill_start(Some(999), Some(1)), Some(1000));
    assert_eq!(backfill_start(None, Some(50)), Some(50));
    assert_eq!(backfill_start(None, None), None);
    assert_eq!(backfill_start(Some(u32::MAX), None), None);
}

#[test]
fn subscription_registration_and_fanout() {
    let mut table = SubscriptionTable::new();
    let a = account(8);
    table.register(Key::AccountId(a), 1);
    table.register(Key::AccountId(a), 1);
    table.register(Key::Variant(5, 2), 2);
    assert_eq!(table.subscribers_of(&Key::AccountId(a)), vec![1]);
    assert_eq!(table.subscribers_of(&Key::Variant(5, 2)), vec![2]);
    assert_eq!(table.subscribers_of(&Key::AccountId(account(12))), Vec::<u64>::new());
    table.unregister_subscriber(1);
    assert_eq!(table.subscribers_of(&Key::AccountId(a)), Vec::<u64>::new());
}

#[test]
fn subscribe_request_returns_subscribed_and_key() {
    let trees = make_trees();
    let key = Key::PoolId(17);
    let (resp, sub) = process_msg(
        &trees,
        RequestMessage::SubscribeEvents { key },
        Vec::new(),
    )
    .unwrap();
    assert!(matches!(resp, ResponseMessage::Subscribed));
    assert!(matches!(sub, Some(Key::PoolId(17))));
}

#[test]
fn malformed_frame_leaves_connection_open() {
    let state = conn_step(ConnState::Accepted, ConnEvent::HandshakeComplete);
    assert_eq!(state, ConnState::Open);
    // A malformed frame is ignored; the connection still serves requests.
    let state = conn_step(state, ConnEvent::MalformedFrame);
    assert_eq!(state, ConnState::Open);
    let trees = make_trees();
    let (resp, _) = process_msg(&trees, RequestMessage::Status, Vec::new()).unwrap();
    assert!(matches!(resp, ResponseMessage::Status { .. }));
    let state = conn_step(state, ConnEvent::Disconnected);
    assert_eq!(state, ConnState::Closed);
}

#[test]
fn encode_event_exact_bytes() {
    let mut expected = vec![3u8, 0u8];
    let x = account(11);
    let h = account(22);
    expected.extend_from_slice(&x);
    expected.extend_from_slice(&7u32.to_le_bytes());
    expected.extend_from_slice(&h);
    expected.extend_from_slice(&3u32.to_le_bytes());
    let e = Event::Collective(Collective::Proposed {
        account: x,
        proposal_index: 7,
        proposal_hash: h,
        threshold: 3,
    });
    assert_eq!(encode_event(&e), expected);

    let mut expected = vec![1u8, 0u8];
    let a = account(1);
    let b = account(2);
    expected.extend_from_slice(&a);
    expected.extend_from_slice(&b);
    expected.extend_from_slice(&10u128.to_le_bytes());
    let e = Event::Balances(Balances::Transfer { from: a, to: b, value: 10 });
    assert_eq!(encode_event(&e), expected);
}
