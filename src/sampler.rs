use vstd::prelude::*;
use crate::cache::ShardedCache;
use crate::metric::{MetricName, MetricPoint};

verus! {

/// The counters of one network interface at sampling time.
pub struct NetInterface {
    pub name: String,
    pub transmitted: u64,
    pub received: u64,
}

/// One tick of the sampler: the values measured at `timestamp` (seconds
/// since the epoch), each as the bit pattern of an `f64`. `cores[i]` is the
/// usage of core `i`; `net` holds the transmitted and received values of the
/// watched interface, if it was found.
pub struct Sample {
    pub timestamp: u64,
    pub cpus: u64,
    pub cores: Vec<u64>,
    pub mem: u64,
    pub net: Option<(u64, u64)>,
}

/// The point of value bits `v` taken at time `t`.
pub open spec fn point_at(t: u64, v: u64) -> MetricPoint {
    MetricPoint { timestamp: t, value_bits: v }
}

/// The pushes of one tick, in order: aggregate usage, each core by index,
/// memory, then transmitted and received bytes when the interface was found.
pub open spec fn sample_ops(s: Sample) -> Seq<(MetricName, MetricPoint)> {
    let t = s.timestamp;
    seq![(MetricName::CpusUsage, point_at(t, s.cpus))] + Seq::new(
        s.cores.len() as nat,
        |i: int| (MetricName::CpuUsage { id: i as usize }, point_at(t, s.cores[i])),
    ) + seq![(MetricName::MemUsage, point_at(t, s.mem))] + match s.net {
        Some((tx, rx)) => seq![
            (MetricName::NetTxUsage, point_at(t, tx)),
            (MetricName::NetRxUsage, point_at(t, rx)),
        ],
        None => Seq::empty(),
    }
}

/// The key and point of each push of the tick `s`, in push order.
pub fn sample_points(s: &Sample) -> (r: Vec<(MetricName, MetricPoint)>)
    ensures
        r@ == sample_ops(*s),
{
    let t = s.timestamp;
    let mut r: Vec<(MetricName, MetricPoint)> = Vec::new();
    r.push((MetricName::CpusUsage, MetricPoint { timestamp: t, value_bits: s.cpus }));
    let mut i: usize = 0;
    while i < s.cores.len()
        invariant
            i <= s.cores.len(),
            t == s.timestamp,
            r@ =~= seq![(MetricName::CpusUsage, point_at(t, s.cpus))] + Seq::new(
                i as nat,
                |j: int| (MetricName::CpuUsage { id: j as usize }, point_at(t, s.cores[j])),
            ),
        decreases s.cores.len() - i,
    {
        r.push((MetricName::CpuUsage { id: i }, MetricPoint { timestamp: t, value_bits: s.cores[i] }));
        i = i + 1;
    }
    r.push((MetricName::MemUsage, MetricPoint { timestamp: t, value_bits: s.mem }));
    match s.net {
        Some((tx, rx)) => {
            r.push((MetricName::NetTxUsage, MetricPoint { timestamp: t, value_bits: tx }));
            r.push((MetricName::NetRxUsage, MetricPoint { timestamp: t, value_bits: rx }));
        },
        None => {},
    }
    assert(r@ =~= sample_ops(*s));
    r
}

/// Pushes every point of the tick `s` into the cache, in the order of `sample_ops`.
pub fn record_sample(cache: &ShardedCache, s: &Sample) {
    let ops = sample_points(s);
    let mut i: usize = 0;
    while i < ops.len()
        invariant
            i <= ops.len(),
        decreases ops.len() - i,
    {
        let (k, p) = ops[i];
        cache.push(k, p);
        i = i + 1;
    }
}

/// The counters of the first interface called `name`, if any.
pub fn select_interface(ifaces: &Vec<NetInterface>, name: &String) -> (r: Option<(u64, u64)>)
    ensures
        match r {
            Some((tx, rx)) => exists|i: int|
                0 <= i < ifaces.len() && (#[trigger] ifaces[i]).name@ == name@ && tx
                    == ifaces[i].transmitted && rx == ifaces[i].received && forall|j: int|
                    0 <= j < i ==> ifaces[j].name@ != name@,
            None => forall|i: int| 0 <= i < ifaces.len() ==> (#[trigger] ifaces[i]).name@ != name@,
        },
{
    let mut i: usize = 0;
    while i < ifaces.len()
        invariant
            i <= ifaces.len(),
            forall|j: int| 0 <= j < i ==> (#[trigger] ifaces[j]).name@ != name@,
        decreases ifaces.len() - i,
    {
        if ifaces[i].name == *name {
            return Some((ifaces[i].transmitted, ifaces[i].received));
        }
        i = i + 1;
    }
    None
}

} // verus!
