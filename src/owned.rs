use vstd::prelude::*;
use crate::metric::{shard_index, shard_of, MetricName, MetricPoint};
use crate::laws::apply_pushes;
use crate::shard::{opt_view, push_model, read_model, Shard};

verus! {

/// The sharded cache for a single owner: the same routing of keys to
/// shards as `ShardedCache`, without locks, so that its contents can be
/// stated exactly.
pub struct OwnedCache {
    shards: Vec<Shard>,
    capacity: usize,
    contents: Ghost<Map<MetricName, Seq<MetricPoint>>>,
}

impl OwnedCache {
    pub closed spec fn wf(self) -> bool {
        let n = self.shards.len() as nat;
        &&& n > 0
        &&& self.capacity > 0
        &&& forall|i: int|
            0 <= i < n ==> (#[trigger] self.shards[i]).wf() && self.shards[i].cap()
                == self.capacity
        &&& forall|i: int, k: MetricName|
            0 <= i < n && #[trigger] self.shards[i]@.contains_key(k) ==> shard_of(k, n) == i
        &&& forall|k: MetricName|
            #[trigger] self.contents@.contains_key(k) <==> self.shards[shard_of(
                k,
                n,
            ) as int]@.contains_key(k)
        &&& forall|k: MetricName|
            #[trigger] self.contents@.contains_key(k) ==> self.contents@[k] == self.shards[shard_of(
                k,
                n,
            ) as int]@[k]
    }

    pub closed spec fn shard_count_spec(self) -> nat {
        self.shards.len() as nat
    }

    pub closed spec fn cap(self) -> nat {
        self.capacity as nat
    }

    /// The points kept for each key that was ever pushed, oldest first.
    pub closed spec fn view(self) -> Map<MetricName, Seq<MetricPoint>> {
        self.contents@
    }

    pub fn new(shard_count: usize, ring_capacity: usize) -> (r: Self)
        requires
            shard_count > 0,
            ring_capacity > 0,
        ensures
            r.wf(),
            r.shard_count_spec() == shard_count,
            r.cap() == ring_capacity,
            r@ == Map::<MetricName, Seq<MetricPoint>>::empty(),
    {
        let mut shards: Vec<Shard> = Vec::with_capacity(shard_count);
        let mut i: usize = 0;
        while i < shard_count
            invariant
                i <= shard_count,
                ring_capacity > 0,
                shards.len() == i,
                forall|j: int|
                    0 <= j < i ==> (#[trigger] shards[j]).wf() && shards[j].cap() == ring_capacity
                        && shards[j]@ == Map::<MetricName, Seq<MetricPoint>>::empty(),
            decreases shard_count - i,
        {
            shards.push(Shard::new(ring_capacity));
            i = i + 1;
        }
        OwnedCache { shards, capacity: ring_capacity, contents: Ghost(Map::empty()) }
    }

    /// Appends `p` to the series of `k` in the shard that owns `k`.
    pub fn push(&mut self, k: MetricName, p: MetricPoint)
        requires
            old(self).wf(),
        ensures
            final(self).wf(),
            final(self).shard_count_spec() == old(self).shard_count_spec(),
            final(self).cap() == old(self).cap(),
            final(self)@ == push_model(old(self)@, k, p, old(self).cap()),
    {
        let ghost pre = self.contents@;
        let ghost old_shards = self.shards@;
        let n = self.shards.len();
        let i = shard_index(&k, n);
        self.shards[i].push(k, p);
        self.contents = Ghost(push_model(pre, k, p, self.capacity as nat));
        assert forall|j: int, q: MetricName|
            0 <= j < n && #[trigger] self.shards[j]@.contains_key(q) implies shard_of(q, n as nat)
            == j by {
            if j == i && q != k {
                assert(old_shards[j]@.contains_key(q));
            }
        }
        assert forall|q: MetricName| #[trigger]
            self.contents@.contains_key(q) <==> self.shards[shard_of(
                q,
                n as nat,
            ) as int]@.contains_key(q) by {
            if q != k {
                assert(pre.contains_key(q) <==> old_shards[shard_of(q, n as nat) as int]@.contains_key(q));
            }
        }
        assert forall|q: MetricName| #[trigger]
            self.contents@.contains_key(q) implies self.contents@[q] == self.shards[shard_of(
                q,
                n as nat,
            ) as int]@[q] by {
            if q != k {
                assert(pre.contains_key(q));
            }
        }
    }

    /// A copy of the last `n` points of `k`, or `None` if `k` was never pushed.
    pub fn read(&self, k: &MetricName, n: usize) -> (r: Option<Vec<MetricPoint>>)
        requires
            self.wf(),
        ensures
            opt_view(r) == read_model(self@, *k, n as nat),
    {
        let i = shard_index(k, self.shards.len());
        self.shards[i].read(k, n)
    }
    /// Applies the pushes `ops` in order, as the sampler does with one tick.
    pub fn push_all(&mut self, ops: &Vec<(MetricName, MetricPoint)>)
        requires
            old(self).wf(),
        ensures
            final(self).wf(),
            final(self).shard_count_spec() == old(self).shard_count_spec(),
            final(self).cap() == old(self).cap(),
            final(self)@ == apply_pushes(old(self)@, ops@, old(self).cap()),
    {
        let ghost start = self@;
        let mut i: usize = 0;
        while i < ops.len()
            invariant
                i <= ops.len(),
                self.wf(),
                self.shard_count_spec() == old(self).shard_count_spec(),
                self.cap() == old(self).cap(),
                start == old(self)@,
                self@ == apply_pushes(start, ops@.subrange(0, i as int), self.cap()),
            decreases ops.len() - i,
        {
            let (k, p) = ops[i];
            self.push(k, p);
            i = i + 1;
            proof {
                assert(ops@.subrange(0, i as int).drop_last() =~= ops@.subrange(0, i - 1));
            }
        }
        assert(ops@.subrange(0, ops@.len() as int) =~= ops@);
    }
}

} // verus!
