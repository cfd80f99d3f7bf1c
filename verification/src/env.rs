//! Environment orchestration: storage, chain, mock network, service and
//! client handles, monitor registration, and the synchronization
//! barrier's target.
//!
//! The whole build is a pure function of its inputs and the generator
//! seed: the resulting chain is pinned block by block by the spec
//! functions here.  Each step is independently fallible and the first
//! failure aborts the build with no rollback.

use crate::barrier::SyncBarrier;
use crate::block::generated_outputs;
use crate::block::{KeyImage, Output};
use crate::error::Error;
use crate::keys::{subaddress_of, AccountKey, PublicAddress, DEFAULT_SUBADDRESS_INDEX};
use crate::ledger::{add_block_to_ledger_db, LedgerDb};
use crate::monitor::{monitor_id_of, Database, MonitorData};
use crate::network::{
    is_agreed_height, peer_heights, spin_up, ConnectionManager, MockPeer, PollingNetworkState,
    QuorumSet,
};
use crate::rng::{lcg_iter, lemma_lcg_iter_add, TestRng};
use crate::{GET_TESTING_ENVIRONMENT_NUM_BLOCKS, PER_RECIPIENT_AMOUNT};
use vstd::prelude::*;

verus! {

/// First port handed out; later ones follow in sequence.
pub const BASE_PORT: u16 = 30100;

/// Largest offset that still yields a valid port.
pub const MAX_PORT_OFFSET: u16 = 35435;

/// Hands out locally unique ports from a monotonically increasing
/// counter offset from `BASE_PORT`, so parallel environments in one
/// process do not collide.
pub struct PortAllocator {
    pub next_offset: u16,
}

impl PortAllocator {
    /// A fresh allocator whose first port is `BASE_PORT`.
    pub fn new() -> (r: PortAllocator)
        ensures
            r.next_offset == 0,
    {
        PortAllocator { next_offset: 0 }
    }
}

/// The next locally unique port: `BASE_PORT` plus the count of ports
/// already handed out.
pub fn get_free_port(allocator: &mut PortAllocator) -> (r: u16)
    requires
        old(allocator).next_offset <= MAX_PORT_OFFSET,
    ensures
        r == BASE_PORT + old(allocator).next_offset,
        final(allocator).next_offset == old(allocator).next_offset + 1,
{
    let r = BASE_PORT + allocator.next_offset;
    allocator.next_offset = allocator.next_offset + 1;
    r
}

/// The recipient a fresh random account drawn at state `s` resolves to.
pub open spec fn random_recipient_from(s: u64) -> PublicAddress {
    subaddress_of(
        (AccountKey { view_private: lcg_iter(s, 1), spend_private: lcg_iter(s, 2) }),
        DEFAULT_SUBADDRESS_INDEX,
    )
}

/// The first `n` freshly generated recipients from seed state `s0`;
/// each consumes two draws.
pub open spec fn random_recipients(s0: u64, n: int) -> Seq<PublicAddress>
    decreases n,
{
    if n <= 0 {
        Seq::empty()
    } else {
        random_recipients(s0, n - 1).push(random_recipient_from(lcg_iter(s0, (2 * (n - 1)) as nat)))
    }
}

/// Generator state when block `b` starts being built, for a chain over
/// `nr` recipients whose block 0 started at `s1`.  Block 0 consumes one
/// draw per recipient; every later block consumes one more for its key
/// image.
pub open spec fn chain_state(s1: u64, nr: nat, b: int) -> u64
    decreases b,
{
    if b <= 0 {
        s1
    } else if b == 1 {
        lcg_iter(s1, nr)
    } else {
        lcg_iter(chain_state(s1, nr, b - 1), 1 + nr)
    }
}

/// The key images of block `b`: none in the origin block, exactly one
/// synthetic image in every later block.
pub open spec fn block_key_images(s1: u64, nr: nat, b: int) -> Seq<KeyImage> {
    if b == 0 {
        Seq::empty()
    } else {
        seq![(KeyImage { value: lcg_iter(chain_state(s1, nr, b), 1) })]
    }
}

/// The outputs of block `b`: one per recipient at the fixed amount,
/// keyed by the draws following the block's key image, if any.
pub open spec fn block_outputs(rs: Seq<PublicAddress>, s1: u64, b: int) -> Seq<Output> {
    if b == 0 {
        generated_outputs(rs, PER_RECIPIENT_AMOUNT, chain_state(s1, rs.len(), b))
    } else {
        generated_outputs(rs, PER_RECIPIENT_AMOUNT, lcg_iter(chain_state(s1, rs.len(), b), 1))
    }
}

/// What `get_test_databases` owes of the ledger it builds: the chain
/// invariant, exactly `num_blocks` blocks of the harness version, and
/// every block's key images and outputs pinned by the recipient list
/// and the seed.
pub open spec fn ledger_built(db: LedgerDb, path: Seq<char>, rs: Seq<PublicAddress>, s1: u64, num_blocks: int) -> bool {
    &&& db.inv()
    &&& db.path@ == path
    &&& db.blocks@.len() == num_blocks
    &&& forall|b: int|
        0 <= b < num_blocks ==> (#[trigger] db.blocks@[b]).version == crate::block::BLOCK_VERSION
    &&& forall|b: int|
        0 <= b < num_blocks ==> (#[trigger] db.contents@[b]).key_images@ == block_key_images(
            s1,
            rs.len(),
            b,
        )
    &&& forall|b: int|
        0 <= b < num_blocks ==> (#[trigger] db.contents@[b]).outputs@ == block_outputs(rs, s1, b)
}

/// Build the two stores: a ledger of `num_blocks` blocks, each holding
/// one output per recipient — the freshly generated recipients first,
/// then the known ones — and an empty monitor database.  Block 0 has no
/// key images; every later block has exactly one.
#[verifier::rlimit(100)]
pub fn get_test_databases(
    num_random_recipients: u32,
    known_recipients: &Vec<PublicAddress>,
    num_blocks: usize,
    ledger_db_path: String,
    mobilecoind_db_path: String,
    rng: &mut TestRng,
) -> (r: (LedgerDb, Database))
    ensures
        ledger_built(
            r.0,
            ledger_db_path@,
            random_recipients(old(rng).state, num_random_recipients as int) + known_recipients@,
            lcg_iter(old(rng).state, 2 * num_random_recipients as nat),
            num_blocks as int,
        ),
        r.1.path == mobilecoind_db_path,
        r.1.monitors@.len() == 0,
        r.1.inv(),
        final(rng).state == chain_state(
            lcg_iter(old(rng).state, 2 * num_random_recipients as nat),
            (random_recipients(old(rng).state, num_random_recipients as int)
                + known_recipients@).len(),
            num_blocks as int,
        ),
{
    let ghost s0 = rng.state;
    let mut public_addresses: Vec<PublicAddress> = Vec::new();
    let mut i: u32 = 0;
    while i < num_random_recipients
        invariant
            0 <= i <= num_random_recipients,
            rng.state == lcg_iter(s0, 2 * i as nat),
            public_addresses@ == random_recipients(s0, i as int),
        decreases num_random_recipients - i,
    {
        let key = AccountKey::random(rng);
        public_addresses.push(key.default_subaddress());
        proof {
            lemma_lcg_iter_add(s0, 2 * i as nat, 2);
        }
        i = i + 1;
    }
    let ghost nrand = num_random_recipients as int;
    let mut j: usize = 0;
    while j < known_recipients.len()
        invariant
            0 <= j <= known_recipients@.len(),
            rng.state == lcg_iter(s0, 2 * num_random_recipients as nat),
            public_addresses@ == random_recipients(s0, nrand) + known_recipients@.take(j as int),
        decreases known_recipients@.len() - j,
    {
        public_addresses.push(known_recipients[j]);
        proof {
            assert(known_recipients@.take(j + 1) =~= known_recipients@.take(j as int).push(
                known_recipients@[j as int],
            ));
            assert(random_recipients(s0, nrand) + known_recipients@.take(j + 1)
                =~= (random_recipients(s0, nrand) + known_recipients@.take(j as int)).push(
                known_recipients@[j as int],
            ));
        }
        j = j + 1;
    }
    proof {
        assert(known_recipients@.take(known_recipients@.len() as int) =~= known_recipients@);
    }
    let ghost rs = random_recipients(s0, nrand) + known_recipients@;
    let ghost s1 = lcg_iter(s0, 2 * num_random_recipients as nat);
    let ghost nr = rs.len();
    proof {
        assert(public_addresses@ == rs);
    }

    let mut ledger_db = LedgerDb::create(ledger_db_path);

    let mut block_index: usize = 0;
    while block_index < num_blocks
        invariant
            0 <= block_index <= num_blocks,
            public_addresses@ == rs,
            nr == rs.len(),
            ledger_db.inv(),
            ledger_db.path@ == ledger_db_path@,
            ledger_db.blocks@.len() == block_index,
            ledger_db.contents@.len() == block_index,
            rng.state == chain_state(s1, nr, block_index as int),
            forall|b: int|
                0 <= b < block_index ==> (#[trigger] ledger_db.blocks@[b]).version
                    == crate::block::BLOCK_VERSION,
            forall|b: int|
                0 <= b < block_index ==> (#[trigger] ledger_db.contents@[b]).key_images@
                    == block_key_images(s1, nr, b),
            forall|b: int|
                0 <= b < block_index ==> (#[trigger] ledger_db.contents@[b]).outputs@
                    == block_outputs(rs, s1, b),
        decreases num_blocks - block_index,
    {
        let ghost cs = rng.state;
        let mut key_images: Vec<KeyImage> = Vec::new();
        if block_index > 0 {
            key_images.push(KeyImage::new(rng.next_u64()));
            proof {
                assert(lcg_iter(cs, 1) == crate::rng::lcg_step(lcg_iter(cs, 0)));
                assert(key_images@ =~= block_key_images(s1, nr, block_index as int));
            }
        } else {
            proof {
                assert(key_images@ =~= block_key_images(s1, nr, 0));
            }
        }
        let ghost pre = ledger_db;
        let _new_block_height = add_block_to_ledger_db(
            &mut ledger_db,
            &public_addresses,
            &key_images,
            rng,
        );
        proof {
            if block_index > 0 {
                lemma_lcg_iter_add(cs, 1, nr);
                assert(chain_state(s1, nr, block_index as int + 1) == lcg_iter(cs, 1 + nr));
            } else {
                assert(chain_state(s1, nr, 1) == lcg_iter(s1, nr));
            }
            assert(ledger_db.contents@.last().outputs@ == block_outputs(
                rs,
                s1,
                block_index as int,
            ));
            assert forall|b: int|
                0 <= b < block_index + 1 implies (#[trigger] ledger_db.contents@[b]).key_images@
                == block_key_images(s1, nr, b) by {
                if b < block_index {
                    assert(ledger_db.contents@[b] == pre.contents@[b]);
                }
            }
            assert forall|b: int|
                0 <= b < block_index + 1 implies (#[trigger] ledger_db.contents@[b]).outputs@
                == block_outputs(rs, s1, b) by {
                if b < block_index {
                    assert(ledger_db.contents@[b] == pre.contents@[b]);
                }
            }
            assert forall|b: int|
                0 <= b < block_index + 1 implies (#[trigger] ledger_db.blocks@[b]).version
                == crate::block::BLOCK_VERSION by {
                if b < block_index {
                    assert(ledger_db.blocks@[b] == pre.blocks@[b]);
                }
            }
        }
        block_index = block_index + 1;
    }

    let mobilecoind_db = Database::new(mobilecoind_db_path);

    (ledger_db, mobilecoind_db)
}

/// Opaque handle for the service under test, bound to its port; the
/// real service collaborator is out of scope, and the harness consumes
/// only that construction succeeded.
pub struct Service {
    pub bind_port: u16,
}

impl Service {
    /// A service handle bound to the given port.
    pub fn new(bind_port: u16) -> (r: Service)
        ensures
            r.bind_port == bind_port,
    {
        Service { bind_port }
    }
}

/// Opaque client handle bound to a network port.
pub struct ApiClient {
    pub port: u16,
}

/// A client for the service listening on `test_port`.
pub fn setup_client(test_port: u16) -> (r: ApiClient)
    ensures
        r.port == test_port,
{
    ApiClient { port: test_port }
}

/// Spin up two mock peers sharing the ledger snapshot, derive a quorum
/// requiring agreement from both, and force one seed poll.
pub fn setup_server(ledger_db: &LedgerDb, test_port: u16) -> (r: (Service, ConnectionManager, PollingNetworkState))
    ensures
        r.0.bind_port == test_port,
        r.1.peers@.len() == 2,
        forall|i: int|
            0 <= i < 2 ==> #[trigger] r.1.peers@[i] == (MockPeer {
                id: (i + 1) as u64,
                reported_height: ledger_db.blocks@.len() as u64,
            }),
        r.2.quorum_set.threshold == 2,
        r.2.quorum_set.node_ids@ == seq![1u64, 2u64],
        is_agreed_height(peer_heights(r.1.peers@), 2, r.2.highest_agreed),
{
    let height = ledger_db.num_blocks();
    let peers = spin_up(2, height);
    let mut node_ids: Vec<u64> = Vec::new();
    node_ids.push(peers[0].id);
    node_ids.push(peers[1].id);
    proof {
        assert(node_ids@ =~= seq![1u64, 2u64]);
    }
    let quorum_set = match QuorumSet::new(2, node_ids) {
        Result::Ok(q) => q,
        Result::Err(_) => vstd::pervasive::unreached(),
    };
    let conn_manager = ConnectionManager::new(peers);
    let mut network_state = PollingNetworkState::new(quorum_set);
    network_state.poll(&conn_manager);
    let service = Service::new(test_port);
    (service, conn_manager, network_state)
}

/// Every handle a ready test environment exposes.
pub struct TestEnvironment {
    pub ledger_db: LedgerDb,
    pub mobilecoind_db: Database,
    pub client: ApiClient,
    pub service: Service,
    pub conn_manager: ConnectionManager,
    pub network_state: PollingNetworkState,
    pub monitor_ids: Vec<u64>,
    pub barrier: SyncBarrier,
}

/// Build a ready test environment: recipients assembled, a chain of
/// `GET_TESTING_ENVIRONMENT_NUM_BLOCKS` blocks with one output per
/// recipient per block, a locally unique port, two mock peers with a
/// both-must-agree quorum and one seed poll, service and client
/// handles, and every requested monitor registered.  The caller drives
/// the returned barrier until every monitor has consumed the chain.
/// Fails exactly when two requested monitors share an identity.
#[verifier::rlimit(100)]
pub fn get_testing_environment(
    num_random_recipients: u32,
    recipients: &Vec<PublicAddress>,
    monitors: &Vec<MonitorData>,
    ledger_db_path: String,
    mobilecoind_db_path: String,
    port_alloc: &mut PortAllocator,
    rng: &mut TestRng,
) -> (r: Result<TestEnvironment, Error>)
    requires
        old(port_alloc).next_offset <= MAX_PORT_OFFSET,
    ensures
        match r {
            Result::Ok(env) => {
                &&& ledger_built(
                    env.ledger_db,
                    ledger_db_path@,
                    random_recipients(old(rng).state, num_random_recipients as int)
                        + recipients@,
                    lcg_iter(old(rng).state, 2 * num_random_recipients as nat),
                    GET_TESTING_ENVIRONMENT_NUM_BLOCKS as int,
                )
                &&& env.mobilecoind_db.path == mobilecoind_db_path
                &&& env.mobilecoind_db.inv()
                &&& env.mobilecoind_db.monitors@.len() == monitors@.len()
                &&& forall|k: int|
                    0 <= k < monitors@.len() ==> #[trigger] env.mobilecoind_db.monitors@[k] == (
                        monitor_id_of(monitors@[k]),
                        monitors@[k],
                    )
                &&& env.monitor_ids@.len() == monitors@.len()
                &&& forall|k: int|
                    0 <= k < monitors@.len() ==> #[trigger] env.monitor_ids@[k] == monitor_id_of(
                        monitors@[k],
                    )
                &&& forall|a: int, b: int|
                    0 <= a < b < monitors@.len() ==> monitor_id_of(#[trigger] monitors@[a])
                        != monitor_id_of(#[trigger] monitors@[b])
                &&& env.service.bind_port == BASE_PORT + old(port_alloc).next_offset
                &&& env.client.port == BASE_PORT + old(port_alloc).next_offset
                &&& env.conn_manager.peers@.len() == 2
                &&& env.network_state.quorum_set.threshold == 2
                &&& is_agreed_height(
                    peer_heights(env.conn_manager.peers@),
                    2,
                    env.network_state.highest_agreed,
                )
                &&& env.barrier.target == GET_TESTING_ENVIRONMENT_NUM_BLOCKS as u64
                &&& env.barrier.state == crate::barrier::BarrierState::Waiting
                &&& final(port_alloc).next_offset == old(port_alloc).next_offset + 1
            },
            Result::Err(e) => {
                &&& e == Error::MonitorIdExists
                &&& exists|a: int, b: int|
                    0 <= a < b < monitors@.len() && monitor_id_of(#[trigger] monitors@[a])
                        == monitor_id_of(#[trigger] monitors@[b])
            },
        },
{
    let (ledger_db, mut mobilecoind_db) = get_test_databases(
        num_random_recipients,
        recipients,
        GET_TESTING_ENVIRONMENT_NUM_BLOCKS,
        ledger_db_path,
        mobilecoind_db_path,
        rng,
    );
    let port = get_free_port(port_alloc);
    let (service, conn_manager, network_state) = setup_server(&ledger_db, port);
    let client = setup_client(port);

    let mut monitor_ids: Vec<u64> = Vec::new();
    let mut k: usize = 0;
    while k < monitors.len()
        invariant
            0 <= k <= monitors@.len(),
            mobilecoind_db.inv(),
            mobilecoind_db.path == mobilecoind_db_path,
            mobilecoind_db.monitors@.len() == k,
            forall|t: int|
                0 <= t < k ==> #[trigger] mobilecoind_db.monitors@[t] == (
                    monitor_id_of(monitors@[t]),
                    monitors@[t],
                ),
            monitor_ids@.len() == k,
            forall|t: int|
                0 <= t < k ==> #[trigger] monitor_ids@[t] == monitor_id_of(monitors@[t]),
        decreases monitors@.len() - k,
    {
        let data = monitors[k];
        match mobilecoind_db.add_monitor(&data) {
            Result::Ok(id) => {
                monitor_ids.push(id);
            },
            Result::Err(e) => {
                proof {
                    let t = choose|t: int|
                        0 <= t < mobilecoind_db.monitors@.len() && (
                        #[trigger] mobilecoind_db.monitors@[t]).0 == monitor_id_of(
                            monitors@[k as int],
                        );
                    assert(mobilecoind_db.monitors@[t] == (
                        monitor_id_of(monitors@[t]),
                        monitors@[t],
                    ));
                    assert(0 <= t < k as int && monitor_id_of(monitors@[t]) == monitor_id_of(
                        monitors@[k as int],
                    ));
                }
                return Result::Err(e);
            },
        }
        k = k + 1;
    }
    proof {
        assert forall|a: int, b: int|
            0 <= a < b < monitors@.len() implies monitor_id_of(#[trigger] monitors@[a])
            != monitor_id_of(#[trigger] monitors@[b]) by {
            assert(mobilecoind_db.monitors@[a] == (monitor_id_of(monitors@[a]), monitors@[a]));
            assert(mobilecoind_db.monitors@[b] == (monitor_id_of(monitors@[b]), monitors@[b]));
        }
    }

    let target = ledger_db.num_blocks();
    let barrier = SyncBarrier::new(target);

    Result::Ok(
        TestEnvironment {
            ledger_db,
            mobilecoind_db,
            client,
            service,
            conn_manager,
            network_state,
            monitor_ids,
            barrier,
        },
    )
}

} // verus!
