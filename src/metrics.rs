use vstd::prelude::*;
use crate::cache::ShardedCache;
use crate::metric::{MetricName, MetricPoint};

verus! {

/// Asks for the last `each_count` points of every series.
pub struct MetricsAllRequest {
    pub each_count: usize,
}

/// The last points of every series; `cpu[i]` is the series of core `i`.
pub struct MetricsAllResponse {
    pub cpus: Vec<MetricPoint>,
    pub cpu: Vec<Vec<MetricPoint>>,
    pub mem: Vec<MetricPoint>,
    pub net_tx: Vec<MetricPoint>,
    pub net_rx: Vec<MetricPoint>,
}

/// Asks for the last `count` points of the series `name`.
pub struct MetricsRequestItem {
    pub count: usize,
    pub name: MetricName,
}

/// An ordered batch of series requests.
pub struct MetricsRequest(pub Vec<MetricsRequestItem>);

/// One list of points per request item, in request order.
pub struct MetricsResponse(pub Vec<Vec<MetricPoint>>);

/// A read result with "no data" turned into an empty list.
pub open spec fn or_empty(r: Option<Vec<MetricPoint>>) -> Seq<MetricPoint> {
    match r {
        Some(v) => v@,
        None => Seq::empty(),
    }
}

/// Replaces "no data" by an empty list.
pub fn points_or_empty(r: Option<Vec<MetricPoint>>) -> (v: Vec<MetricPoint>)
    ensures
        v@ == or_empty(r),
{
    match r {
        Some(v) => v,
        None => Vec::new(),
    }
}

/// Builds a batch response from the read results of its items, taken in
/// request order: item `i` answers with result `i`, empty where it was absent.
pub fn fill_response(results: Vec<Option<Vec<MetricPoint>>>) -> (resp: MetricsResponse)
    ensures
        resp.0.len() == results.len(),
        forall|i: int| 0 <= i < results.len() ==> (#[trigger] resp.0[i])@ == or_empty(results[i]),
{
    let mut data: Vec<Vec<MetricPoint>> = Vec::new();
    let n = results.len();
    let mut rest = results;
    let ghost all = rest@;
    let mut i: usize = 0;
    while i < n
        invariant
            n == all.len(),
            i <= n,
            data.len() == i,
            forall|j: int| 0 <= j < i ==> (#[trigger] data[j])@ == or_empty(all[j]),
            rest@ == all.subrange(i as int, n as int),
        decreases n - i,
    {
        let r = rest.remove(0);
        data.push(points_or_empty(r));
        i = i + 1;
        proof {
            assert(rest@ =~= all.subrange(i as int, n as int));
        }
    }
    MetricsResponse(data)
}

/// Answers a batch request: one read per item, in request order, each absent
/// series answered by an empty list. Each answer holds at most the count that
/// its item asked for, and at most the cache's ring capacity.
pub fn get_machine_metrics(req: MetricsRequest, cache: &ShardedCache) -> (resp: MetricsResponse)
    ensures
        resp.0.len() == req.0.len(),
        forall|i: int|
            0 <= i < req.0.len() ==> (#[trigger] resp.0[i]).len() <= req.0[i].count
                && resp.0[i].len() <= cache.ring_capacity_spec(),
{
    let items = req.0;
    let mut results: Vec<Option<Vec<MetricPoint>>> = Vec::new();
    let mut i: usize = 0;
    while i < items.len()
        invariant
            i <= items.len(),
            results.len() == i,
            forall|j: int|
                0 <= j < i ==> (#[trigger] or_empty(results[j])).len() <= items[j].count
                    && or_empty(results[j]).len() <= cache.ring_capacity_spec(),
        decreases items.len() - i,
    {
        let r = cache.read(&items[i].name, items[i].count);
        results.push(r);
        i = i + 1;
    }
    fill_response(results)
}

/// Builds the answer for every series from the read results: each fixed
/// series is its result, or empty where it was absent, and `cpu` holds the
/// results of `cores` in order up to, not including, the first absent one.
pub fn fill_all(
    cpus: Option<Vec<MetricPoint>>,
    mem: Option<Vec<MetricPoint>>,
    net_tx: Option<Vec<MetricPoint>>,
    net_rx: Option<Vec<MetricPoint>>,
    cores: Vec<Option<Vec<MetricPoint>>>,
) -> (resp: MetricsAllResponse)
    ensures
        resp.cpus@ == or_empty(cpus),
        resp.mem@ == or_empty(mem),
        resp.net_tx@ == or_empty(net_tx),
        resp.net_rx@ == or_empty(net_rx),
        resp.cpu.len() <= cores.len(),
        forall|i: int| 0 <= i < resp.cpu.len() ==> cores[i] == Some(#[trigger] resp.cpu[i]),
        forall|i: int| 0 <= i < resp.cpu.len() ==> (#[trigger] cores[i]) is Some,
        resp.cpu.len() < cores.len() ==> cores[resp.cpu.len() as int] is None,
{
    let n = cores.len();
    let ghost all = cores@;
    let mut rest = cores;
    let mut cpu: Vec<Vec<MetricPoint>> = Vec::new();
    let mut i: usize = 0;
    let mut stopped = false;
    while i < n && !stopped
        invariant
            n == all.len(),
            i <= n,
            cpu.len() == i,
            forall|j: int| 0 <= j < i ==> all[j] == Some(#[trigger] cpu[j]),
            forall|j: int| 0 <= j < i ==> (#[trigger] all[j]) is Some,
            rest@ == all.subrange(i as int, n as int),
            stopped ==> i < n && all[i as int] is None,
        decreases n - i + (if stopped { 0int } else { 1int }),
    {
        if rest[0].is_none() {
            stopped = true;
        } else {
            if let Some(points) = rest.remove(0) {
                cpu.push(points);
            }
            i = i + 1;
            proof {
                assert(rest@ =~= all.subrange(i as int, n as int));
            }
        }
    }
    MetricsAllResponse {
        cpus: points_or_empty(cpus),
        cpu,
        mem: points_or_empty(mem),
        net_tx: points_or_empty(net_tx),
        net_rx: points_or_empty(net_rx),
    }
}

/// Answers a request for every series: it reads the four fixed series, then
/// core 0, 1, 2, ... up to and including the first core read that finds no
/// data, and hands those results to `fill_all`. Every list holds at most
/// `each_count` points, and at most the ring capacity; for a positive count
/// every core entry holds at least one point.
pub fn get_machine_metrics_all(req: MetricsAllRequest, cache: &ShardedCache) -> (resp:
    MetricsAllResponse)
    ensures
        resp.cpus.len() <= req.each_count && resp.cpus.len() <= cache.ring_capacity_spec(),
        resp.mem.len() <= req.each_count && resp.mem.len() <= cache.ring_capacity_spec(),
        resp.net_tx.len() <= req.each_count && resp.net_tx.len() <= cache.ring_capacity_spec(),
        resp.net_rx.len() <= req.each_count && resp.net_rx.len() <= cache.ring_capacity_spec(),
        forall|i: int|
            0 <= i < resp.cpu.len() ==> (#[trigger] resp.cpu[i]).len() <= req.each_count
                && resp.cpu[i].len() <= cache.ring_capacity_spec() && (req.each_count > 0
                ==> resp.cpu[i].len() > 0),
{
    let n = req.each_count;
    let cpus = cache.read(&MetricName::CpusUsage, n);
    let mem = cache.read(&MetricName::MemUsage, n);
    let net_tx = cache.read(&MetricName::NetTxUsage, n);
    let net_rx = cache.read(&MetricName::NetRxUsage, n);
    let mut cores: Vec<Option<Vec<MetricPoint>>> = Vec::new();
    let mut id: usize = 0;
    while id < usize::MAX
        invariant
            cores.len() == id,
            forall|i: int|
                0 <= i < cores.len() ==> (#[trigger] or_empty(cores[i])).len() <= n
                    && or_empty(cores[i]).len() <= cache.ring_capacity_spec() && (cores[i] is Some
                    && n > 0 ==> or_empty(cores[i]).len() > 0),
        decreases usize::MAX - id,
    {
        let r = cache.read(&MetricName::CpuUsage { id }, n);
        let absent = r.is_none();
        cores.push(r);
        id = id + 1;
        if absent {
            break;
        }
    }
    let resp = fill_all(cpus, mem, net_tx, net_rx, cores);
    assert forall|i: int| 0 <= i < resp.cpu.len() implies (#[trigger] resp.cpu[i]).len()
        <= req.each_count && resp.cpu[i].len() <= cache.ring_capacity_spec() && (req.each_count
        > 0 ==> resp.cpu[i].len() > 0) by {
        assert(or_empty(cores[i]) == resp.cpu[i]@);
    }
    resp
}

} // verus!
