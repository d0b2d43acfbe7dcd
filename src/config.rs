use vstd::prelude::*;
use vstd::string::StringSliceAdditionalSpecFns;
use vstd::utf8::encode_utf8;

verus! {

/// The settings of the sampler and of the cache.
pub struct MachineMetricsConfig {
    pub shard_count: usize,
    pub ring_size: usize,
    pub sample_interval_s: u64,
    pub ethernet_name: String,
}

/// One accepted API token and what it is for.
pub struct ApiToken {
    pub token: String,
    pub description: String,
}

/// The settings of the whole server, read once at startup.
pub struct Config {
    pub listen_addr: String,
    pub machine_metrics: MachineMetricsConfig,
    pub api_tokens: Vec<ApiToken>,
}

/// The bytes of the scheme prefix `Bearer ` (with its trailing space).
pub open spec fn bearer_prefix() -> Seq<u8> {
    seq![66u8, 101u8, 97u8, 114u8, 101u8, 114u8, 32u8]
}

/// Whether an `Authorization` header of bytes `h` presents the token `t`.
pub open spec fn header_grants(h: Seq<u8>, t: Seq<char>) -> bool {
    h == bearer_prefix() + encode_utf8(t)
}

/// Whether the header bytes `h` present one of `tokens`.
pub open spec fn authorized(h: Seq<u8>, tokens: Seq<String>) -> bool {
    exists|i: int| 0 <= i < tokens.len() && #[trigger] header_grants(h, tokens[i]@)
}

/// Whether the bytes of `h` from `off` on are exactly `t`.
fn tail_equals(h: &[u8], off: usize, t: &[u8]) -> (r: bool)
    requires
        off <= h@.len(),
    ensures
        r == (h@.subrange(off as int, h@.len() as int) == t@),
{
    if h.len() - off != t.len() {
        proof {
            assert(h@.subrange(off as int, h@.len() as int).len() != t@.len());
        }
        return false;
    }
    let hl = h.len();
    let mut i: usize = 0;
    while i < t.len()
        invariant
            hl == h@.len(),
            off <= hl,
            i <= t@.len(),
            h@.len() - off == t@.len(),
            forall|j: int| 0 <= j < i ==> h@[off + j] == t@[j],
        decreases t@.len() - i,
    {
        if h[off + i] != t[i] {
            proof {
                assert(h@.subrange(off as int, h@.len() as int)[i as int] != t@[i as int]);
            }
            return false;
        }
        i = i + 1;
    }
    assert(h@.subrange(off as int, h@.len() as int) =~= t@);
    true
}

/// Decides whether a request may reach the cache: its `Authorization` header
/// must be present and be `Bearer ` followed by exactly one of `tokens`.
pub fn bearer_token_accepted(header: Option<&str>, tokens: &Vec<String>) -> (r: bool)
    ensures
        r == (header is Some && authorized(header.unwrap().spec_bytes(), tokens@)),
{
    match header {
        None => false,
        Some(h) => {
            let hb = h.as_bytes();
            let prefix: [u8; 7] = [66u8, 101u8, 97u8, 114u8, 101u8, 114u8, 32u8];
            if hb.len() < 7 {
                proof {
                    assert forall|i: int| 0 <= i < tokens.len() implies !#[trigger] header_grants(
                        h.spec_bytes(),
                        tokens[i]@,
                    ) by {}
                }
                return false;
            }
            let mut j: usize = 0;
            while j < 7
                invariant
                    j <= 7,
                    hb@.len() >= 7,
                    header == Some(h),
                    hb@ == h.spec_bytes(),
                    prefix@ == bearer_prefix(),
                    forall|q: int| 0 <= q < j ==> hb@[q] == bearer_prefix()[q],
                decreases 7 - j,
            {
                if hb[j] != prefix[j] {
                    proof {
                        assert forall|i: int| 0 <= i < tokens.len() implies !#[trigger] header_grants(
                            h.spec_bytes(),
                            tokens[i]@,
                        ) by {
                            assert(hb@[j as int] != bearer_prefix()[j as int]);
                            assert((bearer_prefix() + encode_utf8(tokens[i]@))[j as int]
                                == bearer_prefix()[j as int]);
                        }
                    }
                    return false;
                }
                j = j + 1;
            }
            assert(hb@.subrange(0, 7) =~= bearer_prefix());
            let mut i: usize = 0;
            while i < tokens.len()
                invariant
                    i <= tokens.len(),
                    header == Some(h),
                    hb@ == h.spec_bytes(),
                    hb@.len() >= 7,
                    hb@.subrange(0, 7) == bearer_prefix(),
                    forall|q: int| 0 <= q < i ==> !#[trigger] header_grants(
                        h.spec_bytes(),
                        tokens[q]@,
                    ),
                decreases tokens.len() - i,
            {
                let tb = tokens[i].as_str().as_bytes();
                let ok = tail_equals(hb, 7, tb);
                proof {
                    let t = encode_utf8(tokens[i as int]@);
                    assert(tb@ == t);
                    assert(hb@ =~= hb@.subrange(0, 7) + hb@.subrange(7, hb@.len() as int));
                    if ok {
                        assert(hb@ =~= bearer_prefix() + t);
                        assert(header_grants(h.spec_bytes(), tokens[i as int]@));
                    } else {
                        if hb@ == bearer_prefix() + t {
                            assert(hb@.subrange(7, hb@.len() as int) =~= t);
                        }
                    }
                }
                if ok {
                    return true;
                }
                i = i + 1;
            }
            false
        },
    }
}

} // verus!
