//! Mock peer network: shared-snapshot peers, quorum derivation and
//! polling.
//!
//! Peers are read-only views over one ledger snapshot, each with a stable
//! identity and an independently trackable reported height.  A quorum set
//! demands agreement from a threshold of peers; polling recomputes the
//! highest height that at least that many peers report having reached,
//! and is idempotent while peer state is unchanged.

use crate::error::Error;
use vstd::prelude::*;

verus! {

/// A mock peer: a stable identity plus the height it currently reports
/// over the shared ledger snapshot.
#[derive(Clone, Copy, Debug, PartialEq, Eq, Structural)]
pub struct MockPeer {
    pub id: u64,
    pub reported_height: u64,
}

/// Create `peer_count` peers over a snapshot of the given height, with
/// identities 1 through `peer_count` and reported heights all equal to
/// the snapshot's height.
pub fn spin_up(peer_count: usize, snapshot_height: u64) -> (peers: Vec<MockPeer>)
    ensures
        peers@.len() == peer_count,
        forall|i: int|
            0 <= i < peer_count ==> #[trigger] peers@[i] == (MockPeer {
                id: (i + 1) as u64,
                reported_height: snapshot_height,
            }),
{
    let mut peers: Vec<MockPeer> = Vec::new();
    let mut i: usize = 0;
    while i < peer_count
        invariant
            0 <= i <= peer_count,
            peer_count <= usize::MAX,
            peers@.len() == i,
            forall|j: int|
                0 <= j < i ==> #[trigger] peers@[j] == (MockPeer {
                    id: (j + 1) as u64,
                    reported_height: snapshot_height,
                }),
        decreases peer_count - i,
    {
        peers.push(MockPeer { id: (i + 1) as u64, reported_height: snapshot_height });
        i = i + 1;
    }
    peers
}

/// A threshold and the peer identities from which that many must agree.
#[derive(Debug)]
pub struct QuorumSet {
    pub threshold: usize,
    pub node_ids: Vec<u64>,
}

impl QuorumSet {
    /// Derive a quorum requiring `threshold` of the given identities to
    /// agree.  A threshold exceeding the number of identities is a
    /// configuration error, reported before any poll is attempted.
    pub fn new(threshold: usize, node_ids: Vec<u64>) -> (r: Result<QuorumSet, Error>)
        ensures
            match r {
                Result::Ok(q) => {
                    &&& threshold <= node_ids@.len()
                    &&& q.threshold == threshold
                    &&& q.node_ids@ == node_ids@
                },
                Result::Err(e) => {
                    &&& threshold > node_ids@.len()
                    &&& e == Error::InvalidThreshold
                },
            },
    {
        if threshold > node_ids.len() {
            Result::Err(Error::InvalidThreshold)
        } else {
            Result::Ok(QuorumSet { threshold, node_ids })
        }
    }
}

/// Holds the peers a network state polls.
pub struct ConnectionManager {
    pub peers: Vec<MockPeer>,
}

impl ConnectionManager {
    /// A manager over exactly the given peers.
    pub fn new(peers: Vec<MockPeer>) -> (r: ConnectionManager)
        ensures
            r.peers@ == peers@,
    {
        ConnectionManager { peers }
    }
}

/// The heights the peers currently report.
pub open spec fn peer_heights(peers: Seq<MockPeer>) -> Seq<u64> {
    peers.map_values(|p: MockPeer| p.reported_height)
}

/// How many entries of `s`, up to position `n`, are at least `h`.
pub open spec fn count_at_least_to(s: Seq<u64>, h: u64, n: int) -> nat
    decreases n,
{
    if n <= 0 {
        0
    } else {
        count_at_least_to(s, h, n - 1) + (if 0 <= n - 1 < s.len() && s[n - 1] >= h {
            1nat
        } else {
            0nat
        })
    }
}

/// How many entries of `s` are at least `h`.
pub open spec fn count_at_least(s: Seq<u64>, h: u64) -> nat {
    count_at_least_to(s, h, s.len() as int)
}

/// What the aggregated state's agreed height must be: `None` when the
/// threshold is zero or infeasible, otherwise the largest reported
/// height that at least `k` peers have reached.
pub open spec fn is_agreed_height(s: Seq<u64>, k: nat, r: Option<u64>) -> bool {
    match r {
        Option::None => k == 0 || k > s.len(),
        Option::Some(h) => {
            &&& 1 <= k <= s.len()
            &&& exists|i: int| 0 <= i < s.len() && s[i] == h
            &&& count_at_least(s, h) >= k
            &&& forall|j: int|
                0 <= j < s.len() && count_at_least(s, #[trigger] s[j]) >= k ==> s[j] <= h
        },
    }
}

/// When every entry up to `n` is at least `h`, the count up to `n` is `n`.
proof fn lemma_count_full(s: Seq<u64>, h: u64, n: int)
    requires
        0 <= n <= s.len(),
        forall|i: int| 0 <= i < s.len() ==> s[i] >= h,
    ensures
        count_at_least_to(s, h, n) == n,
    decreases n,
{
    if n > 0 {
        lemma_count_full(s, h, n - 1);
    }
}

/// The position of a minimal entry of a nonempty sequence.
proof fn lemma_min_index(s: Seq<u64>) -> (m: int)
    requires
        s.len() > 0,
    ensures
        0 <= m < s.len(),
        forall|j: int| 0 <= j < s.len() ==> #[trigger] s[j] >= s[m],
    decreases s.len(),
{
    if s.len() == 1 {
        0
    } else {
        let sub = s.drop_last();
        let msub = lemma_min_index(sub);
        assert(forall|j: int| 0 <= j < s.len() - 1 ==> #[trigger] s[j] == sub[j]);
        if s.last() >= s[msub] {
            assert(forall|j: int| 0 <= j < s.len() ==> #[trigger] s[j] >= s[msub]);
            msub
        } else {
            assert(forall|j: int| 0 <= j < s.len() ==> #[trigger] s[j] >= s[s.len() - 1]);
            s.len() - 1
        }
    }
}

/// Polling is idempotent: the agreed height is uniquely determined by the
/// peers' reported heights and the threshold, so repeated polls with
/// unchanged peer state leave the aggregated network state unchanged.
pub proof fn lemma_poll_idempotent(s: Seq<u64>, k: nat, first: Option<u64>, second: Option<u64>)
    requires
        is_agreed_height(s, k, first),
        is_agreed_height(s, k, second),
    ensures
        first == second,
{
    match (first, second) {
        (Option::Some(h1), Option::Some(h2)) => {
            let i1 = choose|i: int| 0 <= i < s.len() && s[i] == h1;
            assert(count_at_least(s, s[i1]) >= k);
            assert(h1 <= h2);
            let i2 = choose|i: int| 0 <= i < s.len() && s[i] == h2;
            assert(count_at_least(s, s[i2]) >= k);
            assert(h2 <= h1);
        },
        _ => {},
    }
}

/// Aggregated, quorum-checked view of the peers' reported heights.
pub struct PollingNetworkState {
    pub quorum_set: QuorumSet,
    pub highest_agreed: Option<u64>,
}

impl PollingNetworkState {
    /// A fresh state that has not polled yet.
    pub fn new(quorum_set: QuorumSet) -> (r: PollingNetworkState)
        ensures
            r.quorum_set.threshold == quorum_set.threshold,
            r.quorum_set.node_ids@ == quorum_set.node_ids@,
            r.highest_agreed is None,
    {
        PollingNetworkState { quorum_set, highest_agreed: Option::None }
    }

    /// Query every peer and recompute the highest quorum-agreed height.
    /// Safe to call repeatedly: the result is a function of the peers'
    /// reported heights and the threshold alone.
    pub fn poll(&mut self, conn_manager: &ConnectionManager)
        ensures
            final(self).quorum_set.threshold == old(self).quorum_set.threshold,
            final(self).quorum_set.node_ids@ == old(self).quorum_set.node_ids@,
            is_agreed_height(
                peer_heights(conn_manager.peers@),
                old(self).quorum_set.threshold as nat,
                final(self).highest_agreed,
            ),
    {
        let ghost s = peer_heights(conn_manager.peers@);
        let k = self.quorum_set.threshold;
        let n = conn_manager.peers.len();
        proof {
            assert(s.len() == n);
        }
        if k == 0 || k > n {
            self.highest_agreed = Option::None;
            return;
        }
        let mut best: u64 = 0;
        let mut have_best: bool = false;
        let mut j: usize = 0;
        while j < n
            invariant
                0 <= j <= n,
                n == conn_manager.peers@.len(),
                s == peer_heights(conn_manager.peers@),
                s.len() == n,
                1 <= k <= n,
                have_best ==> exists|i: int| 0 <= i < s.len() && s[i] == best,
                have_best ==> count_at_least(s, best) >= k,
                forall|j2: int|
                    0 <= j2 < j && count_at_least(s, #[trigger] s[j2]) >= k ==> have_best && s[j2]
                        <= best,
            decreases n - j,
        {
            let h = conn_manager.peers[j].reported_height;
            proof {
                assert(s[j as int] == h);
            }
            let mut cnt: usize = 0;
            let mut t: usize = 0;
            while t < n
                invariant
                    0 <= t <= n,
                    n == conn_manager.peers@.len(),
                    s == peer_heights(conn_manager.peers@),
                    s.len() == n,
                    cnt == count_at_least_to(s, h, t as int),
                    cnt <= t,
                decreases n - t,
            {
                proof {
                    assert(s[t as int] == conn_manager.peers@[t as int].reported_height);
                }
                if conn_manager.peers[t].reported_height >= h {
                    cnt = cnt + 1;
                }
                t = t + 1;
            }
            if cnt >= k {
                if !have_best || h > best {
                    best = h;
                    have_best = true;
                }
            }
            j = j + 1;
        }
        if have_best {
            self.highest_agreed = Option::Some(best);
        } else {
            proof {
                let m = lemma_min_index(s);
                lemma_count_full(s, s[m], s.len() as int);
                assert(count_at_least(s, s[m]) >= k);
                assert(false);
            }
            self.highest_agreed = Option::None;
        }
    }
}

} // verus!
