use vstd::prelude::*;
use std::collections::HashMap;
use crate::metric::{key_code, key_hash, lemma_key_hash_injective, MetricName, MetricPoint};
use crate::ring::{kept, last_n, RingBuffer};

verus! {

broadcast use vstd::std_specs::hash::group_hash_axioms;

/// The points kept for `k` in the contents `m`; empty for a key never pushed.
pub open spec fn history(m: Map<MetricName, Seq<MetricPoint>>, k: MetricName) -> Seq<MetricPoint> {
    if m.contains_key(k) {
        m[k]
    } else {
        Seq::empty()
    }
}

/// The contents after pushing `p` under `k` with ring capacity `cap`: the key
/// gains an entry if it had none, and only its series changes.
pub open spec fn push_model(
    m: Map<MetricName, Seq<MetricPoint>>,
    k: MetricName,
    p: MetricPoint,
    cap: nat,
) -> Map<MetricName, Seq<MetricPoint>> {
    m.insert(k, kept(history(m, k).push(p), cap))
}

/// What a read of the last `n` points of `k` returns on the contents `m`:
/// nothing for a key never pushed, else its most recent `n` points.
pub open spec fn read_model(m: Map<MetricName, Seq<MetricPoint>>, k: MetricName, n: nat) -> Option<
    Seq<MetricPoint>,
> {
    if m.contains_key(k) {
        Some(last_n(m[k], n))
    } else {
        None
    }
}

/// The elements' views of an optional vector of points.
pub open spec fn opt_view(r: Option<Vec<MetricPoint>>) -> Option<Seq<MetricPoint>> {
    match r {
        Some(v) => Some(v@),
        None => None,
    }
}

/// A map from keys to ring buffers, each created on the first push to its
/// key, so that no buffer is ever empty. The buffers are filed under `key_hash` of their key, which no two
/// keys share.
pub struct Shard {
    rings: HashMap<u128, RingBuffer>,
    capacity: usize,
    contents: Ghost<Map<MetricName, Seq<MetricPoint>>>,
}

impl Shard {
    pub closed spec fn wf(self) -> bool {
        &&& self.capacity > 0
        &&& forall|c: u128|
            #[trigger] self.rings@.contains_key(c) ==> self.rings@[c].wf() && self.rings@[c].cap()
                == self.capacity && self.rings@[c]@.len() > 0
        &&& forall|k: MetricName|
            #[trigger] self.contents@.contains_key(k) <==> self.rings@.contains_key(
                key_hash(k) as u128,
            )
        &&& forall|k: MetricName|
            #[trigger] self.contents@.contains_key(k) ==> self.contents@[k] == self.rings@[key_hash(
                k,
            ) as u128]@
    }

    /// The ring capacity of every buffer of this shard.
    pub closed spec fn cap(self) -> nat {
        self.capacity as nat
    }

    /// The points kept for each key that was ever pushed, oldest first.
    pub closed spec fn view(self) -> Map<MetricName, Seq<MetricPoint>> {
        self.contents@
    }

    pub fn new(capacity: usize) -> (r: Self)
        requires
            capacity > 0,
        ensures
            r.wf(),
            r.cap() == capacity,
            r@ == Map::<MetricName, Seq<MetricPoint>>::empty(),
    {
        Shard { rings: HashMap::new(), capacity, contents: Ghost(Map::empty()) }
    }

    /// Appends `p` to the series of `k`, creating the series on first use.
    pub fn push(&mut self, k: MetricName, p: MetricPoint)
        requires
            old(self).wf(),
        ensures
            final(self).wf(),
            final(self).cap() == old(self).cap(),
            final(self)@ == push_model(old(self)@, k, p, old(self).cap()),
    {
        let ghost pre = self.contents@;
        let ghost old_rings = self.rings@;
        let code = key_code(&k);
        let mut ring = match self.rings.remove(&code) {
            Some(ring) => ring,
            None => RingBuffer::new(self.capacity),
        };
        ring.push(p);
        self.rings.insert(code, ring);
        self.contents = Ghost(push_model(pre, k, p, self.capacity as nat));
        assert forall|q: MetricName| #[trigger]
            self.contents@.contains_key(q) <==> self.rings@.contains_key(key_hash(q) as u128) by {
            if q != k {
                lemma_key_hash_injective(q, k);
            }
        }
        assert forall|q: MetricName| #[trigger]
            self.contents@.contains_key(q) implies self.contents@[q] == self.rings@[key_hash(
                q,
            ) as u128]@ by {
            if q != k {
                lemma_key_hash_injective(q, k);
                assert(pre.contains_key(q));
            }
        }
    }

    /// A copy of the last `n` points of `k`, or `None` if `k` was never pushed.
    /// Never creates an entry.
    pub fn read(&self, k: &MetricName, n: usize) -> (r: Option<Vec<MetricPoint>>)
        requires
            self.wf(),
        ensures
            opt_view(r) == read_model(self@, *k, n as nat),
            r matches Some(v) ==> v@.len() <= self.cap(),
            r matches Some(v) ==> (n > 0 ==> v@.len() > 0),
    {
        let code = key_code(k);
        match self.rings.get(&code) {
            Some(ring) => Some(ring.snapshot_last(n)),
            None => None,
        }
    }
}

} // verus!
