pub mod cache;
pub mod config;
pub mod laws;
pub mod metric;
pub mod metrics;
pub mod owned;
pub mod ring;
pub mod sampler;
pub mod shard;

use vstd::prelude::*;
use crate::cache::ShardedCache;
use crate::config::MachineMetricsConfig;
use crate::metrics::{MetricsAllRequest, MetricsAllResponse, MetricsRequest, MetricsResponse};
use crate::sampler::{record_sample, Sample};

verus! {

/// The metrics service: one cache that the sampler writes and the queries
/// read. It is shared between tasks as a whole, behind an `Arc`.
pub struct MachineMetrics {
    cache: ShardedCache,
}

impl MachineMetrics {
    pub closed spec fn shard_count_spec(self) -> nat {
        self.cache.shard_count_spec()
    }

    pub closed spec fn ring_capacity_spec(self) -> nat {
        self.cache.ring_capacity_spec()
    }

    /// An empty service laid out as `config` says. A zero shard count or
    /// ring size is a misconfiguration that callers reject before this point.
    pub fn new(config: &MachineMetricsConfig) -> (r: Self)
        requires
            config.shard_count > 0,
            config.ring_size > 0,
        ensures
            r.shard_count_spec() == config.shard_count,
            r.ring_capacity_spec() == config.ring_size,
    {
        let cache = ShardedCache::new(config.shard_count, config.ring_size);
        MachineMetrics { cache }
    }

    /// Stores one tick of the sampler.
    pub fn record(&self, s: &Sample) {
        record_sample(&self.cache, s);
    }

    pub fn get_machine_metrics_all(&self, req: MetricsAllRequest) -> (resp: MetricsAllResponse)
        ensures
            resp.cpus.len() <= req.each_count && resp.cpus.len() <= self.ring_capacity_spec(),
            resp.mem.len() <= req.each_count && resp.mem.len() <= self.ring_capacity_spec(),
            resp.net_tx.len() <= req.each_count && resp.net_tx.len() <= self.ring_capacity_spec(),
            resp.net_rx.len() <= req.each_count && resp.net_rx.len() <= self.ring_capacity_spec(),
            forall|i: int|
                0 <= i < resp.cpu.len() ==> (#[trigger] resp.cpu[i]).len() <= req.each_count
                    && resp.cpu[i].len() <= self.ring_capacity_spec() && (req.each_count > 0
                    ==> resp.cpu[i].len() > 0),
    {
        crate::metrics::get_machine_metrics_all(req, &self.cache)
    }

    pub fn get_machine_metrics(&self, req: MetricsRequest) -> (resp: MetricsResponse)
        ensures
            resp.0.len() == req.0.len(),
            forall|i: int|
                0 <= i < req.0.len() ==> (#[trigger] resp.0[i]).len() <= req.0[i].count
                    && resp.0[i].len() <= self.ring_capacity_spec(),
    {
        crate::metrics::get_machine_metrics(req, &self.cache)
    }
}

} // verus!
