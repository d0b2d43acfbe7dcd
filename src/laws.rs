//! Laws of the cache contents. `Shard`, `OwnedCache` and, under each shard's
//! lock, `ShardedCache` change and answer from their contents by `push_model`
//! and `read_model`; `OwnedCache::new` starts from the empty map and
//! `OwnedCache::push_all` applies `apply_pushes`.

use vstd::prelude::*;
use crate::metric::{MetricName, MetricPoint};
use crate::ring::{kept, last_n};
use crate::sampler::{point_at, sample_ops, Sample};
use crate::shard::{history, push_model, read_model};

verus! {

/// The contents after applying the pushes `ops`, in order, to `m`.
pub open spec fn apply_pushes(
    m: Map<MetricName, Seq<MetricPoint>>,
    ops: Seq<(MetricName, MetricPoint)>,
    cap: nat,
) -> Map<MetricName, Seq<MetricPoint>>
    decreases ops.len(),
{
    if ops.len() == 0 {
        m
    } else {
        push_model(apply_pushes(m, ops.drop_last(), cap), ops.last().0, ops.last().1, cap)
    }
}

/// The points that `ops` pushes under `k`, in push order.
pub open spec fn series_of(ops: Seq<(MetricName, MetricPoint)>, k: MetricName) -> Seq<MetricPoint>
    decreases ops.len(),
{
    if ops.len() == 0 {
        Seq::empty()
    } else if ops.last().0 == k {
        series_of(ops.drop_last(), k).push(ops.last().1)
    } else {
        series_of(ops.drop_last(), k)
    }
}

/// Trimming to the capacity before a push changes nothing of what is kept after it.
pub proof fn lemma_kept_push(s: Seq<MetricPoint>, p: MetricPoint, cap: nat)
    requires
        cap > 0,
    ensures
        kept(kept(s, cap).push(p), cap) == kept(s.push(p), cap),
{
    if s.len() > cap {
        assert(kept(kept(s, cap).push(p), cap) =~= kept(s.push(p), cap));
    }
}

/// Starting from an empty cache, a key is present exactly when some push
/// named it, and it keeps the last `cap` of the points pushed under it.
pub proof fn lemma_history_of_pushes(ops: Seq<(MetricName, MetricPoint)>, k: MetricName, cap: nat)
    requires
        cap > 0,
    ensures
        apply_pushes(Map::empty(), ops, cap).contains_key(k) <==> series_of(ops, k).len() > 0,
        history(apply_pushes(Map::empty(), ops, cap), k) == kept(series_of(ops, k), cap),
    decreases ops.len(),
{
    if ops.len() > 0 {
        lemma_history_of_pushes(ops.drop_last(), k, cap);
        if ops.last().0 == k {
            lemma_kept_push(series_of(ops.drop_last(), k), ops.last().1, cap);
        }
    }
}

/// Up to the capacity, reading back as many points as were pushed under a
/// key returns exactly those points, in push order, whatever was pushed
/// under other keys in between.
pub proof fn lemma_read_back_within_capacity(
    ops: Seq<(MetricName, MetricPoint)>,
    k: MetricName,
    cap: nat,
)
    requires
        cap > 0,
        0 < series_of(ops, k).len() <= cap,
    ensures
        read_model(apply_pushes(Map::empty(), ops, cap), k, series_of(ops, k).len())
            == Some(series_of(ops, k)),
{
    lemma_history_of_pushes(ops, k, cap);
}

/// Past the capacity, a read of `cap` points returns the last `cap` pushed,
/// oldest first, and no read of any length returns an earlier one.
pub proof fn lemma_read_after_overflow(ops: Seq<(MetricName, MetricPoint)>, k: MetricName, cap: nat)
    requires
        cap > 0,
        series_of(ops, k).len() > cap,
    ensures
        ({
            let s = series_of(ops, k);
            let tail = s.subrange(s.len() - cap, s.len() as int);
            &&& read_model(apply_pushes(Map::empty(), ops, cap), k, cap) == Some(tail)
            &&& forall|n: nat|
                #[trigger] read_model(apply_pushes(Map::empty(), ops, cap), k, n) == Some(
                    last_n(tail, n),
                )
        }),
{
    lemma_history_of_pushes(ops, k, cap);
}

/// A key that no push named reads as absent, whatever the count asked for.
pub proof fn lemma_unpushed_key_absent(
    ops: Seq<(MetricName, MetricPoint)>,
    k: MetricName,
    cap: nat,
    n: nat,
)
    requires
        cap > 0,
        series_of(ops, k).len() == 0,
    ensures
        read_model(apply_pushes(Map::empty(), ops, cap), k, n) == None::<Seq<MetricPoint>>,
{
    lemma_history_of_pushes(ops, k, cap);
}

/// A read of zero points of a key that was pushed at least once is present and empty.
pub proof fn lemma_read_zero_present(ops: Seq<(MetricName, MetricPoint)>, k: MetricName, cap: nat)
    requires
        cap > 0,
        series_of(ops, k).len() > 0,
    ensures
        read_model(apply_pushes(Map::empty(), ops, cap), k, 0) == Some(Seq::<MetricPoint>::empty()),
{
    lemma_history_of_pushes(ops, k, cap);
    let m = apply_pushes(Map::empty(), ops, cap);
    assert(last_n(m[k], 0) =~= Seq::<MetricPoint>::empty());
}

/// Asking for more points than are stored returns all of them, unpadded.
pub proof fn lemma_read_more_than_stored(m: Map<MetricName, Seq<MetricPoint>>, k: MetricName, n: nat)
    requires
        m.contains_key(k),
        n >= m[k].len(),
    ensures
        read_model(m, k, n) == Some(m[k]),
{
}

/// The points pushed under a key by two runs of pushes are those of the
/// first run followed by those of the second.
pub proof fn lemma_series_concat(
    a: Seq<(MetricName, MetricPoint)>,
    b: Seq<(MetricName, MetricPoint)>,
    k: MetricName,
)
    ensures
        series_of(a + b, k) == series_of(a, k) + series_of(b, k),
    decreases b.len(),
{
    if b.len() == 0 {
        assert(a + b =~= a);
        assert(series_of(a, k) + series_of(b, k) =~= series_of(a, k));
    } else {
        lemma_series_concat(a, b.drop_last(), k);
        assert((a + b).drop_last() =~= a + b.drop_last());
        assert((a + b).last() == b.last());
        if b.last().0 == k {
            assert(series_of(a, k) + series_of(b, k) =~= (series_of(a, k) + series_of(
                b.drop_last(),
                k,
            )).push(b.last().1));
        }
    }
}

/// The pushes of the first `m` cores of the tick `s`.
pub open spec fn core_ops(s: Sample, m: nat) -> Seq<(MetricName, MetricPoint)> {
    Seq::new(m, |i: int| (MetricName::CpuUsage { id: i as usize }, point_at(s.timestamp, s.cores[i])))
}

proof fn lemma_core_ops_series(s: Sample, m: nat, c: usize)
    requires
        m <= s.cores.len(),
    ensures
        series_of(core_ops(s, m), MetricName::CpuUsage { id: c }) == if (c as nat) < m {
            seq![point_at(s.timestamp, s.cores[c as int])]
        } else {
            Seq::<MetricPoint>::empty()
        },
    decreases m,
{
    if m > 0 {
        lemma_core_ops_series(s, (m - 1) as nat, c);
        assert(core_ops(s, m).drop_last() =~= core_ops(s, (m - 1) as nat));
        assert(core_ops(s, m).last().0 == MetricName::CpuUsage { id: (m - 1) as usize });
        if c as nat == m - 1 {
            assert(Seq::<MetricPoint>::empty().push(point_at(s.timestamp, s.cores[c as int]))
                =~= seq![point_at(s.timestamp, s.cores[c as int])]);
        } else {
            assert(MetricName::CpuUsage { id: (m - 1) as usize } != MetricName::CpuUsage { id: c });
        }
    }
}

/// Each core of a tick gets a series of its own: in the pushes of one tick,
/// the key of core `c` receives exactly that core's point, and no other
/// core's point, whatever the number of cores.
pub proof fn lemma_sample_core_series(s: Sample, c: usize)
    requires
        (c as nat) < s.cores.len(),
    ensures
        series_of(sample_ops(s), MetricName::CpuUsage { id: c }) == seq![
            point_at(s.timestamp, s.cores[c as int]),
        ],
{
    reveal_with_fuel(series_of, 3);
    let k = MetricName::CpuUsage { id: c };
    let t = s.timestamp;
    let a: Seq<(MetricName, MetricPoint)> = seq![(MetricName::CpusUsage, point_at(t, s.cpus))];
    let cores = core_ops(s, s.cores.len() as nat);
    let b: Seq<(MetricName, MetricPoint)> = seq![(MetricName::MemUsage, point_at(t, s.mem))];
    let net: Seq<(MetricName, MetricPoint)> = match s.net {
        Some((tx, rx)) => seq![
            (MetricName::NetTxUsage, point_at(t, tx)),
            (MetricName::NetRxUsage, point_at(t, rx)),
        ],
        None => Seq::empty(),
    };
    assert(sample_ops(s) =~= a + cores + b + net);
    lemma_series_concat(a, cores, k);
    lemma_series_concat(a + cores, b, k);
    lemma_series_concat(a + cores + b, net, k);
    lemma_core_ops_series(s, s.cores.len() as nat, c);
    assert(a.drop_last() =~= Seq::<(MetricName, MetricPoint)>::empty());
    assert(series_of(a, k) =~= Seq::<MetricPoint>::empty());
    assert(b.drop_last() =~= Seq::<(MetricName, MetricPoint)>::empty());
    assert(series_of(b, k) =~= Seq::<MetricPoint>::empty());
    if net.len() > 0 {
        assert(net.drop_last().drop_last() =~= Seq::<(MetricName, MetricPoint)>::empty());
    }
    assert(series_of(net, k) =~= Seq::<MetricPoint>::empty());
    assert(series_of(sample_ops(s), k) =~= seq![point_at(t, s.cores[c as int])]);
}

} // verus!
