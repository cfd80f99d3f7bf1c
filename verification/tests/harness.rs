//! End-to-end tests of the harness over concrete values.

use ledger_harness::barrier::{BarrierState, SyncBarrier, TickOutcome};
use ledger_harness::env::{
    get_free_port, get_test_databases, get_testing_environment, setup_client, PortAllocator,
};
use ledger_harness::error::Error;
use ledger_harness::keys::PublicAddress;
use ledger_harness::ledger::{add_block_to_ledger_db, add_txos_to_ledger_db, LedgerDb};
use ledger_harness::monitor::{get_test_monitor_data_and_id, Database};
use ledger_harness::network::{spin_up, ConnectionManager, PollingNetworkState, QuorumSet};
use ledger_harness::rng::TestRng;
use ledger_harness::{GET_TESTING_ENVIRONMENT_NUM_BLOCKS, PER_RECIPIENT_AMOUNT};

fn known_recipient(tag: u64) -> PublicAddress {
    PublicAddress { view_public: tag, spend_public: tag + 1000 }
}

#[test]
fn ledger_heights_and_key_image_counts() {
    let mut rng = TestRng::from_seed(7);
    let known = vec![known_recipient(1)];
    let (ledger_db, mobilecoind_db) = get_test_databases(
        2,
        &known,
        5,
        String::from("ledger_db/a"),
        String::from("mobilecoind_db/a"),
        &mut rng,
    );
    assert_eq!(ledger_db.num_blocks(), 5);
    assert_eq!(mobilecoind_db.monitors.len(), 0);
    for b in 0..5usize {
        let contents = &ledger_db.contents[b];
        assert_eq!(contents.key_images.len(), if b == 0 { 0 } else { 1 });
        assert_eq!(contents.outputs.len(), 3);
        for o in &contents.outputs {
            assert_eq!(o.value, PER_RECIPIENT_AMOUNT);
        }
        // The known recipient comes after the two random ones.
        assert_eq!(contents.outputs[2].recipient, known_recipient(1));
    }
}

#[test]
fn ledger_build_is_reproducible_from_the_seed() {
    let known = vec![known_recipient(4)];
    let mut rng1 = TestRng::from_seed(99);
    let (first, _) = get_test_databases(
        3,
        &known,
        4,
        String::from("p1"),
        String::from("p2"),
        &mut rng1,
    );
    let mut rng2 = TestRng::from_seed(99);
    let (second, _) = get_test_databases(
        3,
        &known,
        4,
        String::from("p1"),
        String::from("p2"),
        &mut rng2,
    );
    assert_eq!(first.blocks, second.blocks);
    assert_eq!(first.contents, second.contents);
}

#[test]
fn append_then_fetch_round_trip() {
    let mut rng = TestRng::from_seed(11);
    let mut ledger_db = LedgerDb::create(String::from("ledger_db/rt"));
    let recipients = vec![known_recipient(2), known_recipient(3)];
    let no_images = Vec::new();
    let height = add_block_to_ledger_db(&mut ledger_db, &recipients, &no_images, &mut rng);
    assert_eq!(height, 1);
    let appended = ledger_db.blocks[0];
    let appended_contents = ledger_db.contents[0].clone();

    let fetched = ledger_db.get_block(0).unwrap();
    assert_eq!(fetched, appended);
    assert_eq!(fetched.parent_id, None);
    assert_eq!(fetched.index, 0);
    let fetched_contents = ledger_db.get_block_contents(0).unwrap();
    assert_eq!(fetched_contents.outputs, appended_contents.outputs);
    assert_eq!(fetched_contents.key_images, appended_contents.key_images);

    // A second block: fetch returns the same outputs, key images and
    // parent linkage that went in.
    let outputs = appended_contents.outputs.clone();
    let height = add_txos_to_ledger_db(&mut ledger_db, &outputs, &mut rng);
    assert_eq!(height, 2);
    let second = ledger_db.get_block(1).unwrap();
    assert_eq!(second.parent_id, Some(appended.id));
    assert_eq!(second.index, 1);
    let second_contents = ledger_db.get_block_contents(1).unwrap();
    assert_eq!(second_contents.outputs, outputs);
    assert_eq!(second_contents.key_images.len(), 1);
    assert!(ledger_db.get_block(2).unwrap_err() == Error::BlockNotFound);
}

#[test]
fn poll_is_idempotent_while_peers_are_unchanged() {
    let peers = spin_up(3, 8);
    let conn_manager = ConnectionManager::new(peers);
    let quorum_set = QuorumSet::new(2, vec![1, 2, 3]).unwrap();
    let mut state = PollingNetworkState::new(quorum_set);
    state.poll(&conn_manager);
    let first = state.highest_agreed;
    assert_eq!(first, Some(8));
    state.poll(&conn_manager);
    assert_eq!(state.highest_agreed, first);
    state.poll(&conn_manager);
    assert_eq!(state.highest_agreed, first);
}

#[test]
fn quorum_requires_enough_agreeing_peers() {
    // Threshold 2 over two peers: the agreed height is what both reach.
    let peers = vec![
        ledger_harness::network::MockPeer { id: 1, reported_height: 10 },
        ledger_harness::network::MockPeer { id: 2, reported_height: 4 },
    ];
    let conn_manager = ConnectionManager::new(peers);
    let quorum_set = QuorumSet::new(2, vec![1, 2]).unwrap();
    let mut state = PollingNetworkState::new(quorum_set);
    state.poll(&conn_manager);
    assert_eq!(state.highest_agreed, Some(4));

    // Threshold 3 over two peers is a configuration error, found before
    // any poll.
    let err = QuorumSet::new(3, vec![1, 2]).unwrap_err();
    assert_eq!(err, Error::InvalidThreshold);
    assert!(err.is_configuration());
}

#[test]
fn empty_inputs_yield_an_empty_ledger_and_an_immediate_barrier() {
    let mut rng = TestRng::from_seed(1);
    let none: Vec<PublicAddress> = Vec::new();
    let (ledger_db, mobilecoind_db) = get_test_databases(
        0,
        &none,
        0,
        String::from("empty/ledger"),
        String::from("empty/monitors"),
        &mut rng,
    );
    assert_eq!(ledger_db.num_blocks(), 0);

    // An empty monitor registry satisfies the barrier vacuously: the
    // first tick is DONE, with no observations and nothing to wait for.
    let mut barrier = SyncBarrier::new(ledger_db.num_blocks());
    assert_eq!(barrier.state, BarrierState::Waiting);
    let outcome = barrier.tick(&mobilecoind_db);
    assert!(matches!(outcome, TickOutcome::Done));
    assert_eq!(barrier.state, BarrierState::Done);
}

#[test]
fn environment_builds_ten_blocks_with_one_output_per_recipient() {
    let mut rng = TestRng::from_seed(42);
    let recipients = vec![known_recipient(9)];
    let monitors = Vec::new();
    let mut ports = PortAllocator::new();
    let env = get_testing_environment(
        0,
        &recipients,
        &monitors,
        String::from("env/ledger"),
        String::from("env/monitors"),
        &mut ports,
        &mut rng,
    )
    .unwrap();
    assert_eq!(env.ledger_db.num_blocks(), GET_TESTING_ENVIRONMENT_NUM_BLOCKS as u64);
    for b in 0..GET_TESTING_ENVIRONMENT_NUM_BLOCKS {
        let contents = &env.ledger_db.contents[b];
        assert_eq!(contents.outputs.len(), 1);
        assert_eq!(contents.outputs[0].recipient, known_recipient(9));
        assert_eq!(contents.key_images.len(), if b == 0 { 0 } else { 1 });
    }
    assert_eq!(env.conn_manager.peers.len(), 2);
    assert_eq!(env.network_state.quorum_set.threshold, 2);
    assert_eq!(env.network_state.highest_agreed, Some(10));
    assert_eq!(env.service.bind_port, 30100);
    assert_eq!(env.client.port, 30100);
    assert_eq!(env.barrier.target, 10);
}

#[test]
fn barrier_waits_until_every_monitor_catches_up() {
    let mut rng = TestRng::from_seed(5);
    let (data_a, _) = get_test_monitor_data_and_id(&mut rng);
    let (data_b, _) = get_test_monitor_data_and_id(&mut rng);
    let recipients = vec![known_recipient(3)];
    let monitors = vec![data_a, data_b];
    let mut ports = PortAllocator::new();
    let env = get_testing_environment(
        0,
        &recipients,
        &monitors,
        String::from("env2/ledger"),
        String::from("env2/monitors"),
        &mut ports,
        &mut rng,
    )
    .unwrap();
    let mut db = env.mobilecoind_db;
    let mut barrier = env.barrier;
    let ids = env.monitor_ids.clone();
    assert_eq!(ids.len(), 2);

    // Both monitors start at 0 against a 10-block ledger: waiting, with
    // one observation per lagging monitor.
    match barrier.tick(&db) {
        TickOutcome::Waiting(obs) => {
            assert_eq!(obs.len(), 2);
            assert_eq!(obs[0].ordinal, 1);
            assert_eq!(obs[0].monitor_id, ids[0]);
            assert_eq!(obs[0].next_block, 0);
            assert_eq!(obs[0].target, 10);
            assert_eq!(obs[1].ordinal, 2);
            assert_eq!(obs[1].monitor_id, ids[1]);
        }
        TickOutcome::Done => panic!("barrier finished before any monitor advanced"),
    }
    assert_eq!(barrier.state, BarrierState::Waiting);

    // One monitor at the target is not enough.
    assert!(db.set_next_block(ids[0], 10));
    match barrier.tick(&db) {
        TickOutcome::Waiting(obs) => {
            assert_eq!(obs.len(), 1);
            assert_eq!(obs[0].ordinal, 2);
            assert_eq!(obs[0].monitor_id, ids[1]);
        }
        TickOutcome::Done => panic!("barrier finished with a lagging monitor"),
    }

    // A cursor beyond the target also counts as caught up.
    assert!(db.set_next_block(ids[1], 11));
    assert!(matches!(barrier.tick(&db), TickOutcome::Done));
    assert_eq!(barrier.state, BarrierState::Done);
}

#[test]
fn registering_the_same_monitor_twice_fails() {
    let mut rng = TestRng::from_seed(13);
    let (data, id) = get_test_monitor_data_and_id(&mut rng);
    let mut db = Database::new(String::from("dup/monitors"));
    assert_eq!(db.add_monitor(&data).unwrap(), id);
    assert_eq!(db.add_monitor(&data).unwrap_err(), Error::MonitorIdExists);
    assert_eq!(db.monitors.len(), 1);
    assert_eq!(db.get_monitor_map()[0], (id, data));
    assert!(!db.set_next_block(id.wrapping_add(1), 5));
}

#[test]
fn ports_are_handed_out_in_sequence() {
    let mut ports = PortAllocator::new();
    assert_eq!(get_free_port(&mut ports), 30100);
    assert_eq!(get_free_port(&mut ports), 30101);
    assert_eq!(get_free_port(&mut ports), 30102);
    let client = setup_client(30102);
    assert_eq!(client.port, 30102);
}

#[test]
fn tampering_with_contents_breaks_the_chain_linkage() {
    let mut rng = TestRng::from_seed(21);
    let recipients = vec![known_recipient(6)];
    let (mut ledger_db, _) = get_test_databases(
        0,
        &recipients,
        3,
        String::from("tamper/ledger"),
        String::from("tamper/monitors"),
        &mut rng,
    );
    // Re-offering the origin block fails: the chain already exists.
    let origin = ledger_db.blocks[0];
    let origin_contents = ledger_db.contents[0].clone();
    let err = ledger_db.append_block(origin, origin_contents).unwrap_err();
    assert_eq!(err, Error::ChainAlreadyExists);

    // A block whose height skips ahead is rejected.
    let mut skipped = ledger_db.blocks[2];
    skipped.index = 4;
    let contents = ledger_db.contents[2].clone();
    assert_eq!(
        ledger_db.append_block(skipped, contents).unwrap_err(),
        Error::InvalidBlockIndex
    );

    // A block at the right height whose parent link does not reference
    // the chain's last block is rejected.
    let unlinked = ledger_harness::block::Block {
        id: 0,
        version: ledger_harness::block::BLOCK_VERSION,
        parent_id: Some(12345),
        index: 3,
        contents_hash: 0,
    };
    let contents = ledger_db.contents[2].clone();
    assert_eq!(
        ledger_db.append_block(unlinked, contents).unwrap_err(),
        Error::InvalidParentLink
    );

    // Mutated contents no longer match the block's contents hash.
    let parent = ledger_db.blocks[2];
    let mut contents = ledger_db.contents[2].clone();
    let honest = ledger_harness::block::Block::new_with_parent(
        ledger_harness::block::BLOCK_VERSION,
        &parent,
        &contents,
    );
    contents.outputs[0].value = 1;
    assert_eq!(
        ledger_db.append_block(honest, contents).unwrap_err(),
        Error::ContentsMismatch
    );

    // A block whose identity is not the digest of its own fields is
    // rejected.
    let contents = ledger_db.contents[2].clone();
    let mut forged = ledger_harness::block::Block::new_with_parent(
        ledger_harness::block::BLOCK_VERSION,
        &parent,
        &contents,
    );
    forged.id = forged.id.wrapping_add(1);
    assert_eq!(
        ledger_db.append_block(forged, contents).unwrap_err(),
        Error::InvalidBlockId
    );

    // An origin block may not carry key images.
    let mut fresh = LedgerDb::create(String::from("tamper/fresh"));
    let origin_outputs = ledger_db.contents[0].outputs.clone();
    let origin = ledger_harness::block::Block::new_origin(&origin_outputs);
    let with_image = ledger_harness::block::BlockContents::new(
        vec![ledger_harness::block::KeyImage::new(77)],
        origin_outputs,
    );
    assert_eq!(
        fresh.append_block(origin, with_image).unwrap_err(),
        Error::InvalidOriginBlock
    );

    // An honest successor is accepted.
    let contents = ledger_db.contents[2].clone();
    let honest = ledger_harness::block::Block::new_with_parent(
        ledger_harness::block::BLOCK_VERSION,
        &parent,
        &contents,
    );
    assert!(ledger_db.append_block(honest, contents).is_ok());
    assert_eq!(ledger_db.num_blocks(), 4);
}
