use vstd::prelude::*;

verus! {

/// One sample of a time series: when it was taken and what was measured.
///
/// The measured value is carried as the bit pattern of an `f64`
/// (`f64::to_bits`); the cache never interprets it, it only stores and copies it.
#[derive(Clone, Copy, Debug, PartialEq, Eq, Structural)]
pub struct MetricPoint {
    pub timestamp: u64,
    pub value_bits: u64,
}

/// Identifies one time series. Two keys are the same series exactly when
/// they have the same variant and the same embedded core index.
#[derive(Clone, Copy, Debug, PartialEq, Eq, Structural, Hash)]
pub enum MetricName {
    CpusUsage,
    CpuUsage { id: usize },
    MemUsage,
    NetTxUsage,
    NetRxUsage,
}

/// The routing hash of a key: the four fixed series take 0 to 3, a core's
/// series takes its index shifted past them.
pub open spec fn key_hash(k: MetricName) -> nat {
    match k {
        MetricName::CpusUsage => 0,
        MetricName::MemUsage => 1,
        MetricName::NetTxUsage => 2,
        MetricName::NetRxUsage => 3,
        MetricName::CpuUsage { id } => id as nat + 4,
    }
}

/// The shard that owns key `k` in a cache of `n` shards.
pub open spec fn shard_of(k: MetricName, n: nat) -> nat
    recommends
        n > 0,
{
    key_hash(k) % n
}

/// Computes `shard_of(k, n)` without overflow for every `n >= 1`.
pub fn shard_index(k: &MetricName, n: usize) -> (r: usize)
    requires
        n > 0,
    ensures
        r as nat == shard_of(*k, n as nat),
        r < n,
{
    match k {
        MetricName::CpusUsage => 0 % n,
        MetricName::MemUsage => 1 % n,
        MetricName::NetTxUsage => 2 % n,
        MetricName::NetRxUsage => 3 % n,
        MetricName::CpuUsage { id } => {
            let a: usize = *id % n;
            let b: usize = 4 % n;
            proof {
                assert((*id as nat + 4) % (n as nat) == ((a as nat) + (b as nat)) % (n as nat))
                    by (nonlinear_arith)
                    requires
                        a == *id % n,
                        b == 4usize % n,
                        n > 0,
                ;
            }
            if a >= n - b {
                proof {
                    assert(((a as nat) + (b as nat)) % (n as nat) == (a + b - n) as nat)
                        by (nonlinear_arith)
                        requires
                            a < n,
                            b < n,
                            a + b >= n,
                    ;
                }
                a - (n - b)
            } else {
                proof {
                    assert(((a as nat) + (b as nat)) % (n as nat) == (a + b) as nat)
                        by (nonlinear_arith)
                        requires
                            a + b < n,
                    ;
                }
                a + b
            }
        },
    }
}

/// Distinct keys have distinct hashes, also as `u128` map keys.
pub proof fn lemma_key_hash_injective(a: MetricName, b: MetricName)
    ensures
        (key_hash(a) as u128 == key_hash(b) as u128) <==> a == b,
{
    assert(key_hash(a) < 0x1_0000_0000_0000_0000_0000 && key_hash(b) < 0x1_0000_0000_0000_0000_0000);
}

/// The routing hash of `k`, as a map key.
pub fn key_code(k: &MetricName) -> (r: u128)
    ensures
        r as nat == key_hash(*k),
{
    match k {
        MetricName::CpusUsage => 0,
        MetricName::MemUsage => 1,
        MetricName::NetTxUsage => 2,
        MetricName::NetRxUsage => 3,
        MetricName::CpuUsage { id } => *id as u128 + 4,
    }
}

} // verus!
