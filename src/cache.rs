use vstd::prelude::*;
use vstd::rwlock::{RwLock, RwLockPredicate};
use crate::metric::{shard_index, MetricName, MetricPoint};
use crate::shard::Shard;

verus! {

/// What every shard of a cache holds at every moment: a well-formed map
/// whose ring buffers all have the cache's capacity.
pub struct ShardInv {
    pub capacity: usize,
}

impl RwLockPredicate<Shard> for ShardInv {
    open spec fn inv(self, v: Shard) -> bool {
        v.wf() && v.cap() == self.capacity as nat
    }
}

/// A fixed array of independently locked shards. Each key is routed to the
/// single shard `shard_of(key, shard_count)`, so two calls on keys of
/// different shards never wait for each other, and no call ever holds two
/// shard locks at once.
pub struct ShardedCache {
    shards: Vec<RwLock<Shard, ShardInv>>,
    capacity: usize,
}

impl ShardedCache {
    #[verifier::type_invariant]
    spec fn inv(self) -> bool {
        &&& self.shards.len() > 0
        &&& self.capacity > 0
        &&& forall|i: int|
            0 <= i < self.shards.len() ==> (#[trigger] self.shards[i]).pred() == (ShardInv { capacity: self.capacity })
    }

    pub closed spec fn shard_count_spec(self) -> nat {
        self.shards.len() as nat
    }

    pub closed spec fn ring_capacity_spec(self) -> nat {
        self.capacity as nat
    }

    /// A cache of `shard_count` empty shards whose ring buffers will each
    /// hold `ring_capacity` points.
    pub fn new(shard_count: usize, ring_capacity: usize) -> (r: Self)
        requires
            shard_count > 0,
            ring_capacity > 0,
        ensures
            r.shard_count_spec() == shard_count,
            r.ring_capacity_spec() == ring_capacity,
    {
        let mut shards: Vec<RwLock<Shard, ShardInv>> = Vec::with_capacity(shard_count);
        let mut i: usize = 0;
        while i < shard_count
            invariant
                i <= shard_count,
                ring_capacity > 0,
                shards.len() == i,
                forall|j: int|
                    0 <= j < i ==> (#[trigger] shards[j]).pred() == (ShardInv { capacity: ring_capacity }),
            decreases shard_count - i,
        {
            let lock = RwLock::new(Shard::new(ring_capacity), Ghost(ShardInv { capacity: ring_capacity }));
            shards.push(lock);
            i = i + 1;
        }
        ShardedCache { shards, capacity: ring_capacity }
    }

    pub fn shard_count(&self) -> (r: usize)
        ensures
            r == self.shard_count_spec(),
    {
        self.shards.len()
    }

    pub fn ring_capacity(&self) -> (r: usize)
        ensures
            r == self.ring_capacity_spec(),
    {
        self.capacity
    }

    /// Appends `p` to the series of `k` under the exclusive lock of the one
    /// shard that owns `k`. The shard applies `push_model` to its contents.
    pub fn push(&self, k: MetricName, p: MetricPoint) {
        proof {
            use_type_invariant(self);
        }
        let i = shard_index(&k, self.shards.len());
        let (mut shard, handle) = self.shards[i].acquire_write();
        shard.push(k, p);
        handle.release_write(shard);
    }

    /// The last `n` points of `k`, oldest first, taken under the shared lock
    /// of the shard that owns `k`; `None` if that shard has no series for `k`.
    /// The shard answers by `read_model` on its contents at that moment, so a
    /// result never holds more than `n` points, nor more than the capacity,
    /// and a present series answers a positive count with at least one point.
    pub fn read(&self, k: &MetricName, n: usize) -> (r: Option<Vec<MetricPoint>>)
        ensures
            r matches Some(v) ==> v.len() <= n && v.len() <= self.ring_capacity_spec(),
            r matches Some(v) ==> (n > 0 ==> v.len() > 0),
    {
        proof {
            use_type_invariant(self);
        }
        let i = shard_index(k, self.shards.len());
        let handle = self.shards[i].acquire_read();
        let r = handle.borrow().read(k, n);
        handle.release_read();
        r
    }
}

} // verus!
