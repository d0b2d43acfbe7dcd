use machine_metrics::metric::{MetricName, MetricPoint};
use machine_metrics::owned::OwnedCache;
use machine_metrics::sampler::{sample_points, Sample};

fn pt(t: u64, v: f64) -> MetricPoint {
    MetricPoint { timestamp: t, value_bits: v.to_bits() }
}

#[test]
fn owned_overflow_keeps_last_three() {
    let mut cache = OwnedCache::new(4, 3);
    for t in 1..=4u64 {
        cache.push(MetricName::CpusUsage, pt(t, t as f64));
    }
    assert_eq!(
        cache.read(&MetricName::CpusUsage, 3),
        Some(vec![pt(2, 2.0), pt(3, 3.0), pt(4, 4.0)])
    );
}

#[test]
fn owned_fresh_reads_none() {
    let cache = OwnedCache::new(4, 3);
    assert_eq!(cache.read(&MetricName::NetTxUsage, 5), None);
}

#[test]
fn owned_read_zero_is_present() {
    let mut cache = OwnedCache::new(4, 3);
    cache.push(MetricName::MemUsage, pt(10, 0.5));
    assert_eq!(cache.read(&MetricName::MemUsage, 0), Some(vec![]));
}

#[test]
fn owned_core_keys_never_merge() {
    let mut cache = OwnedCache::new(3, 4);
    cache.push(MetricName::CpuUsage { id: 0 }, pt(1, 0.1));
    cache.push(MetricName::CpuUsage { id: 7 }, pt(1, 0.7));
    cache.push(MetricName::CpuUsage { id: 0 }, pt(2, 0.2));
    assert_eq!(
        cache.read(&MetricName::CpuUsage { id: 0 }, 4),
        Some(vec![pt(1, 0.1), pt(2, 0.2)])
    );
    assert_eq!(cache.read(&MetricName::CpuUsage { id: 7 }, 4), Some(vec![pt(1, 0.7)]));
}

#[test]
fn owned_capacity_one() {
    let mut cache = OwnedCache::new(2, 1);
    cache.push(MetricName::NetRxUsage, pt(1, 1.0));
    cache.push(MetricName::NetRxUsage, pt(2, 2.0));
    assert_eq!(cache.read(&MetricName::NetRxUsage, 1), Some(vec![pt(2, 2.0)]));
}

#[test]
fn owned_push_all_applies_a_tick() {
    let mut cache = OwnedCache::new(2, 2);
    let s = Sample {
        timestamp: 5,
        cpus: 0.5f64.to_bits(),
        cores: vec![0.1f64.to_bits(), 0.2f64.to_bits(), 0.3f64.to_bits()],
        mem: 0.4f64.to_bits(),
        net: None,
    };
    cache.push_all(&sample_points(&s));
    cache.push_all(&sample_points(&Sample { timestamp: 6, ..s }));
    assert_eq!(
        cache.read(&MetricName::CpuUsage { id: 2 }, 9),
        Some(vec![pt(5, 0.3), pt(6, 0.3)])
    );
    assert_eq!(cache.read(&MetricName::NetTxUsage, 9), None);
}
