use machine_metrics::cache::ShardedCache;
use machine_metrics::metric::{shard_index, MetricName, MetricPoint};
use machine_metrics::ring::RingBuffer;
use machine_metrics::shard::Shard;

fn pt(t: u64, v: f64) -> MetricPoint {
    MetricPoint { timestamp: t, value_bits: v.to_bits() }
}

#[test]
fn overflow_keeps_last_three() {
    let cache = ShardedCache::new(4, 3);
    for t in 1..=4u64 {
        cache.push(MetricName::CpusUsage, pt(t, t as f64));
    }
    let got = cache.read(&MetricName::CpusUsage, 3).unwrap();
    assert_eq!(got, vec![pt(2, 2.0), pt(3, 3.0), pt(4, 4.0)]);
}

#[test]
fn fresh_cache_reads_none() {
    let cache = ShardedCache::new(4, 3);
    assert_eq!(cache.read(&MetricName::MemUsage, 5), None);
}

#[test]
fn read_zero_after_one_push_is_empty() {
    let cache = ShardedCache::new(4, 3);
    cache.push(MetricName::CpusUsage, pt(10, 0.5));
    assert_eq!(cache.read(&MetricName::CpusUsage, 0), Some(vec![]));
}

#[test]
fn per_core_keys_stay_apart() {
    let cache = ShardedCache::new(2, 3);
    cache.push(MetricName::CpuUsage { id: 0 }, pt(1, 0.25));
    cache.push(MetricName::CpuUsage { id: 7 }, pt(1, 0.75));
    assert_eq!(cache.read(&MetricName::CpuUsage { id: 0 }, 5), Some(vec![pt(1, 0.25)]));
    assert_eq!(cache.read(&MetricName::CpuUsage { id: 7 }, 5), Some(vec![pt(1, 0.75)]));
    assert_eq!(cache.read(&MetricName::CpuUsage { id: 1 }, 5), None);
}

#[test]
fn capacity_one_keeps_newest() {
    let cache = ShardedCache::new(1, 1);
    cache.push(MetricName::NetTxUsage, pt(1, 100.0));
    cache.push(MetricName::NetTxUsage, pt(2, 200.0));
    assert_eq!(cache.read(&MetricName::NetTxUsage, 1), Some(vec![pt(2, 200.0)]));
    assert_eq!(cache.read(&MetricName::NetTxUsage, 5), Some(vec![pt(2, 200.0)]));
}

#[test]
fn read_back_within_capacity() {
    let cache = ShardedCache::new(3, 5);
    let pts = vec![pt(1, 0.1), pt(2, 0.2), pt(3, 0.3)];
    for p in &pts {
        cache.push(MetricName::MemUsage, *p);
        cache.push(MetricName::NetRxUsage, pt(p.timestamp, 9.0));
    }
    assert_eq!(cache.read(&MetricName::MemUsage, 3), Some(pts.clone()));
}

#[test]
fn read_more_than_stored_is_unpadded() {
    let cache = ShardedCache::new(2, 4);
    cache.push(MetricName::NetRxUsage, pt(1, 1.0));
    cache.push(MetricName::NetRxUsage, pt(2, 2.0));
    assert_eq!(cache.read(&MetricName::NetRxUsage, 100), Some(vec![pt(1, 1.0), pt(2, 2.0)]));
    assert_eq!(cache.read(&MetricName::NetRxUsage, 1), Some(vec![pt(2, 2.0)]));
}

#[test]
fn cache_reports_its_layout() {
    let cache = ShardedCache::new(6, 9);
    assert_eq!(cache.shard_count(), 6);
    assert_eq!(cache.ring_capacity(), 9);
}

#[test]
fn concurrent_pushes_and_reads_keep_pairs() {
    let cache = std::sync::Arc::new(ShardedCache::new(4, 8));
    let rt = tokio::runtime::Runtime::new().unwrap();
    let writer = {
        let cache = cache.clone();
        rt.spawn_blocking(move || {
            for t in 0..2000u64 {
                cache.push(MetricName::CpuUsage { id: 1 }, pt(t, t as f64));
                cache.push(MetricName::CpuUsage { id: 2 }, pt(t, 2.0 * t as f64));
            }
        })
    };
    for _ in 0..500 {
        if let Some(v) = cache.read(&MetricName::CpuUsage { id: 1 }, 8) {
            assert!(v.len() <= 8);
            for p in &v {
                assert_eq!(p.value_bits, (p.timestamp as f64).to_bits());
            }
            for w in v.windows(2) {
                assert_eq!(w[0].timestamp + 1, w[1].timestamp);
            }
        }
    }
    rt.block_on(writer).unwrap();
    let last = cache.read(&MetricName::CpuUsage { id: 2 }, 1).unwrap();
    assert_eq!(last, vec![pt(1999, 3998.0)]);
}

#[test]
fn shard_index_spreads_cores() {
    assert_eq!(shard_index(&MetricName::CpusUsage, 4), 0);
    assert_eq!(shard_index(&MetricName::MemUsage, 4), 1);
    assert_eq!(shard_index(&MetricName::NetTxUsage, 4), 2);
    assert_eq!(shard_index(&MetricName::NetRxUsage, 4), 3);
    assert_eq!(shard_index(&MetricName::CpuUsage { id: 0 }, 4), 0);
    assert_eq!(shard_index(&MetricName::CpuUsage { id: 7 }, 4), 3);
    assert_eq!(shard_index(&MetricName::CpuUsage { id: usize::MAX }, usize::MAX), 4);
    assert_eq!(shard_index(&MetricName::CpuUsage { id: 5 }, 1), 0);
}

#[test]
fn ring_wraps_in_order() {
    let mut r = RingBuffer::new(3);
    assert_eq!(r.snapshot_last(3), vec![]);
    for t in 1..=7u64 {
        r.push(pt(t, 0.0));
    }
    assert_eq!(r.len(), 3);
    assert_eq!(r.capacity(), 3);
    assert_eq!(r.snapshot_last(3), vec![pt(5, 0.0), pt(6, 0.0), pt(7, 0.0)]);
    assert_eq!(r.snapshot_last(2), vec![pt(6, 0.0), pt(7, 0.0)]);
    assert_eq!(r.snapshot_last(0), vec![]);
}

#[test]
fn shard_creates_entries_on_push_only() {
    let mut s = Shard::new(2);
    assert_eq!(s.read(&MetricName::MemUsage, 1), None);
    assert_eq!(s.read(&MetricName::MemUsage, 1), None);
    s.push(MetricName::MemUsage, pt(1, 0.5));
    s.push(MetricName::CpusUsage, pt(1, 0.9));
    s.push(MetricName::MemUsage, pt(2, 0.6));
    s.push(MetricName::MemUsage, pt(3, 0.7));
    assert_eq!(s.read(&MetricName::MemUsage, 5), Some(vec![pt(2, 0.6), pt(3, 0.7)]));
    assert_eq!(s.read(&MetricName::CpusUsage, 5), Some(vec![pt(1, 0.9)]));
}
