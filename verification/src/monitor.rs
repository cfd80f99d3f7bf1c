//! Monitor registry: per-account scanning cursors.
//!
//! A monitor is a background account-scanning process owned by an
//! external worker; this core only registers monitors and reads their
//! published `next_block` cursors.  A monitor's identity is a digest of
//! its defining data, excluding the cursor, so it stays stable while the
//! cursor advances.

use crate::digest::{mix, mix_u64};
use crate::error::Error;
use crate::keys::{AccountKey, DEFAULT_SUBADDRESS_INDEX};
use crate::rng::{lcg_iter, TestRng};
use vstd::prelude::*;

verus! {

/// Domain separator for monitor identities.
pub const MONITOR_DOMAIN: u64 = 0x6d6f_6e69_746f_7201;

/// What defines a monitor, plus its published scanning cursor
/// `next_block`: the height of the next block it has not yet processed.
#[derive(Clone, Copy, Debug, PartialEq, Eq, Structural)]
pub struct MonitorData {
    pub account_key: AccountKey,
    pub first_subaddress: u64,
    pub num_subaddresses: u64,
    pub first_block: u64,
    pub next_block: u64,
}

impl MonitorData {
    /// A monitor over the given account whose cursor starts at
    /// `first_block`.
    pub fn new(account_key: AccountKey, first_subaddress: u64, num_subaddresses: u64, first_block: u64) -> (r: MonitorData)
        ensures
            r == (MonitorData {
                account_key,
                first_subaddress,
                num_subaddresses,
                first_block,
                next_block: first_block,
            }),
    {
        MonitorData { account_key, first_subaddress, num_subaddresses, first_block, next_block: first_block }
    }
}

/// A monitor's identity: a digest of its defining data, independent of
/// the advancing cursor.
pub open spec fn monitor_id_of(d: MonitorData) -> u64 {
    mix(
        mix(
            mix(mix(mix(MONITOR_DOMAIN, d.account_key.view_private), d.account_key.spend_private), d.first_subaddress),
            d.num_subaddresses,
        ),
        d.first_block,
    )
}

/// Executable monitor identity, equal to `monitor_id_of`.
pub fn compute_monitor_id(data: &MonitorData) -> (r: u64)
    ensures
        r == monitor_id_of(*data),
{
    mix_u64(
        mix_u64(
            mix_u64(
                mix_u64(mix_u64(MONITOR_DOMAIN, data.account_key.view_private), data.account_key.spend_private),
                data.first_subaddress,
            ),
            data.num_subaddresses,
        ),
        data.first_block,
    )
}

/// A fresh monitor over a random account at the default subaddress, one
/// subaddress, starting from block 0, together with its identity.
pub fn get_test_monitor_data_and_id(rng: &mut TestRng) -> (r: (MonitorData, u64))
    ensures
        r.0 == (MonitorData {
            account_key: (AccountKey {
                view_private: lcg_iter(old(rng).state, 1),
                spend_private: lcg_iter(old(rng).state, 2),
            }),
            first_subaddress: DEFAULT_SUBADDRESS_INDEX,
            num_subaddresses: 1,
            first_block: 0,
            next_block: 0,
        }),
        r.1 == monitor_id_of(r.0),
        final(rng).state == lcg_iter(old(rng).state, 2),
{
    let account_key = AccountKey::random(rng);
    let data = MonitorData::new(account_key, DEFAULT_SUBADDRESS_INDEX, 1, 0);
    let monitor_id = compute_monitor_id(&data);
    (data, monitor_id)
}

/// The auxiliary monitor database: registered monitors keyed by their
/// identity, under the storage namespace it was created with.  Its
/// invariant: identities are unique.
pub struct Database {
    pub path: String,
    pub monitors: Vec<(u64, MonitorData)>,
}

impl Database {
    /// Identities are pairwise distinct.
    pub open spec fn inv(self) -> bool {
        forall|i: int, j: int|
            0 <= i < j < self.monitors@.len() ==> (#[trigger] self.monitors@[i]).0 != (
            #[trigger] self.monitors@[j]).0
    }

    /// Whether a monitor with the given identity is registered.
    pub open spec fn has_monitor(self, id: u64) -> bool {
        exists|i: int| 0 <= i < self.monitors@.len() && (#[trigger] self.monitors@[i]).0 == id
    }

    /// An empty registry under the given storage namespace.
    pub fn new(path: String) -> (db: Database)
        ensures
            db.path == path,
            db.monitors@.len() == 0,
            db.inv(),
    {
        Database { path, monitors: Vec::new() }
    }

    /// Register a monitor; its identity is the digest of its data.
    /// Fails, leaving the registry unchanged, exactly when a monitor
    /// with that identity already exists.
    pub fn add_monitor(&mut self, data: &MonitorData) -> (r: Result<u64, Error>)
        requires
            old(self).inv(),
        ensures
            match r {
                Result::Ok(id) => {
                    &&& id == monitor_id_of(*data)
                    &&& !old(self).has_monitor(id)
                    &&& final(self).monitors@ == old(self).monitors@.push((id, *data))
                    &&& final(self).path == old(self).path
                    &&& final(self).inv()
                },
                Result::Err(e) => {
                    &&& e == Error::MonitorIdExists
                    &&& old(self).has_monitor(monitor_id_of(*data))
                    &&& *final(self) == *old(self)
                },
            },
    {
        let id = compute_monitor_id(data);
        let n = self.monitors.len();
        let mut i: usize = 0;
        while i < n
            invariant
                0 <= i <= n,
                n == self.monitors@.len(),
                id == monitor_id_of(*data),
                forall|j: int| 0 <= j < i ==> (#[trigger] self.monitors@[j]).0 != id,
            decreases n - i,
        {
            if self.monitors[i].0 == id {
                return Result::Err(Error::MonitorIdExists);
            }
            i = i + 1;
        }
        let ghost old_monitors = self.monitors@;
        self.monitors.push((id, *data));
        proof {
            assert forall|a: int, b: int|
                0 <= a < b < self.monitors@.len() implies (#[trigger] self.monitors@[a]).0 != (
            #[trigger] self.monitors@[b]).0 by {
                if b < old_monitors.len() {
                    assert(self.monitors@[a] == old_monitors[a]);
                    assert(self.monitors@[b] == old_monitors[b]);
                } else {
                    assert(self.monitors@[a] == old_monitors[a]);
                    assert(self.monitors@[b].0 == id);
                }
            }
        }
        Result::Ok(id)
    }

    /// A snapshot of the registry: every monitor with its identity, in
    /// registration order.
    pub fn get_monitor_map(&self) -> (r: Vec<(u64, MonitorData)>)
        ensures
            r@ == self.monitors@,
    {
        let mut r: Vec<(u64, MonitorData)> = Vec::new();
        let mut i: usize = 0;
        while i < self.monitors.len()
            invariant
                0 <= i <= self.monitors@.len(),
                r@ == self.monitors@.take(i as int),
            decreases self.monitors@.len() - i,
        {
            r.push(self.monitors[i]);
            proof {
                assert(self.monitors@.take(i + 1) =~= self.monitors@.take(i as int).push(
                    self.monitors@[i as int],
                ));
            }
            i = i + 1;
        }
        proof {
            assert(self.monitors@.take(self.monitors@.len() as int) =~= self.monitors@);
        }
        r
    }

    /// Publish a monitor's new cursor, as the external scanning worker
    /// does.  Returns whether the identity was found; nothing else
    /// changes.
    pub fn set_next_block(&mut self, id: u64, next_block: u64) -> (found: bool)
        requires
            old(self).inv(),
        ensures
            found == old(self).has_monitor(id),
            !found ==> *final(self) == *old(self),
            found ==> exists|i: int|
                #![trigger old(self).monitors@[i]]
                {
                    &&& 0 <= i < old(self).monitors@.len()
                    &&& (#[trigger] old(self).monitors@[i]).0 == id
                    &&& final(self).monitors@ == old(self).monitors@.update(
                        i,
                        (
                            id,
                            (MonitorData {
                                account_key: old(self).monitors@[i].1.account_key,
                                first_subaddress: old(self).monitors@[i].1.first_subaddress,
                                num_subaddresses: old(self).monitors@[i].1.num_subaddresses,
                                first_block: old(self).monitors@[i].1.first_block,
                                next_block,
                            }),
                        ),
                    )
                },
            final(self).path == old(self).path,
            final(self).monitors@.len() == old(self).monitors@.len(),
            final(self).inv(),
    {
        let n = self.monitors.len();
        let mut i: usize = 0;
        while i < n
            invariant
                0 <= i <= n,
                n == self.monitors@.len(),
                *self == *old(self),
                self.inv(),
                forall|j: int| 0 <= j < i ==> (#[trigger] self.monitors@[j]).0 != id,
            decreases n - i,
        {
            if self.monitors[i].0 == id {
                let mut entry = self.monitors[i];
                entry.1.next_block = next_block;
                let ghost old_monitors = self.monitors@;
                self.monitors.set(i, entry);
                proof {
                    assert((old(self).monitors@[i as int]).0 == id);
                    assert(self.monitors@ == old(self).monitors@.update(
                        i as int,
                        (
                            id,
                            (MonitorData {
                                account_key: old(self).monitors@[i as int].1.account_key,
                                first_subaddress: old(self).monitors@[i as int].1.first_subaddress,
                                num_subaddresses: old(self).monitors@[i as int].1.num_subaddresses,
                                first_block: old(self).monitors@[i as int].1.first_block,
                                next_block,
                            }),
                        ),
                    ));
                    assert forall|a: int, b: int|
                        0 <= a < b < self.monitors@.len() implies (
                    #[trigger] self.monitors@[a]).0 != (#[trigger] self.monitors@[b]).0 by {
                        assert(self.monitors@[a].0 == old_monitors[a].0);
                        assert(self.monitors@[b].0 == old_monitors[b].0);
                    }
                }
                return true;
            }
            i = i + 1;
        }
        false
    }
}

} // verus!
