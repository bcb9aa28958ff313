//! Fixed-window rate limiting per client key.
//!
//! [`RateLimiter`] keeps, per client key, a request count and the
//! start of its current window.  A request within the window and under
//! the limit increments the count; one over the limit is refused with
//! the seconds left until the window resets; the first request after
//! the window restarts the count.  Every answer carries the limit,
//! the remaining budget and the reset delay, ready to be surfaced as
//! rate-limit response headers.

use vstd::prelude::*;

use crate::assoc::{assoc_map, distinct_keys, lemma_assoc_map_dom, lemma_assoc_map_index,
    lemma_assoc_map_push, lemma_assoc_map_remove_at};
use crate::clock::{elapsed_ms, time_since};
use crate::orm::{decimal, spec_decimal};

verus! {

/// The bound that [`RateLimiter::new`] places on the window length,
/// so the conversion to milliseconds cannot overflow.
pub const MAX_RATE_WINDOW_SECONDS: u64 = 0xFFFF_FFFF;

/// What one rate-limit check tells the caller.
#[derive(Clone, Copy, Debug, PartialEq, Eq, Structural)]
pub struct RateLimitInfo {
    /// The configured limit per window.
    pub limit: u32,
    /// Requests left in the current window.
    pub remaining: u32,
    /// Seconds until the rate limit resets.
    pub reset: u64,
    /// Whether the request is rate limited.
    pub limited: bool,
}

/// Mathematical state of a [`RateLimiter`]: for each client key, its
/// request count and window start.
#[verifier::ext_equal]
pub struct RateLimiterModel {
    pub requests: Map<Seq<char>, (u32, u64)>,
    pub max_requests: u32,
    pub window_ms: u64,
    pub window_seconds: u64,
}

/// The entry sequence with each key read as its character sequence.
pub open spec fn keyed_entries(s: Seq<(String, (u32, u64))>) -> Seq<(Seq<char>, (u32, u64))> {
    s.map_values(|e: (String, (u32, u64))| (e.0@, e.1))
}

/// One `check_rate_limit` transition: the state after the check and
/// the answer handed to the caller.
pub open spec fn rate_limit_step(m: RateLimiterModel, ip: Seq<char>, now: u64) -> (
    RateLimiterModel,
    RateLimitInfo,
) {
    if m.requests.dom().contains(ip) {
        let (count, start) = m.requests[ip];
        if time_since(now, start) > m.window_ms {
            (
                RateLimiterModel { requests: m.requests.insert(ip, (1, now)), ..m },
                RateLimitInfo {
                    limit: m.max_requests,
                    remaining: (m.max_requests - 1) as u32,
                    reset: m.window_seconds,
                    limited: false,
                },
            )
        } else {
            let elapsed = time_since(now, start);
            let reset_in: u64 = if elapsed >= m.window_ms {
                0
            } else {
                (m.window_seconds - elapsed / 1000) as u64
            };
            if count >= m.max_requests {
                (
                    m,
                    RateLimitInfo {
                        limit: m.max_requests,
                        remaining: 0,
                        reset: reset_in,
                        limited: true,
                    },
                )
            } else {
                (
                    RateLimiterModel {
                        requests: m.requests.insert(ip, ((count + 1) as u32, start)),
                        ..m
                    },
                    RateLimitInfo {
                        limit: m.max_requests,
                        remaining: (m.max_requests - (count + 1)) as u32,
                        reset: reset_in,
                        limited: false,
                    },
                )
            }
        }
    } else {
        (
            RateLimiterModel { requests: m.requests.insert(ip, (1, now)), ..m },
            RateLimitInfo {
                limit: m.max_requests,
                remaining: (m.max_requests - 1) as u32,
                reset: m.window_seconds,
                limited: false,
            },
        )
    }
}

/// One `cleanup` transition: exactly the entries whose window start is
/// still within the window survive.
pub open spec fn rate_limit_cleanup_step(m: RateLimiterModel, now: u64) -> RateLimiterModel {
    RateLimiterModel {
        requests: Map::new(
            |k: Seq<char>| m.requests.dom().contains(k) && time_since(now, m.requests[k].1)
                <= m.window_ms,
            |k: Seq<char>| m.requests[k],
        ),
        ..m
    }
}

/// Per-client fixed-window request counting.
pub struct RateLimiter {
    requests: Vec<(String, (u32, u64))>,
    max_requests: u32,
    window_seconds: u64,
    window_ms: u64,
}

impl View for RateLimiter {
    type V = RateLimiterModel;

    closed spec fn view(&self) -> RateLimiterModel {
        RateLimiterModel {
            requests: assoc_map(keyed_entries(self.requests@)),
            max_requests: self.max_requests,
            window_ms: self.window_ms,
            window_seconds: self.window_seconds,
        }
    }
}

impl RateLimiter {
    #[verifier::type_invariant]
    spec fn inv(self) -> bool {
        &&& distinct_keys(keyed_entries(self.requests@))
        &&& forall|j: int| 0 <= j < self.requests@.len() ==> 1 <= (
        #[trigger] self.requests@[j]).1.0 <= self.max_requests
        &&& self.max_requests >= 1
        &&& self.window_seconds <= MAX_RATE_WINDOW_SECONDS
        &&& self.window_ms == self.window_seconds * 1000
    }

    /// A limiter allowing `max_requests` per `window_seconds` for each
    /// client key.
    pub fn new(max_requests: u32, window_seconds: u64) -> (r: Self)
        requires
            max_requests >= 1,
            window_seconds <= MAX_RATE_WINDOW_SECONDS,
        ensures
            r@ == (RateLimiterModel {
                requests: Map::<Seq<char>, (u32, u64)>::empty(),
                max_requests: max_requests,
                window_ms: (window_seconds * 1000) as u64,
                window_seconds: window_seconds,
            }),
    {
        let r = RateLimiter {
            requests: Vec::new(),
            max_requests,
            window_seconds,
            window_ms: window_seconds * 1000,
        };
        proof {
            assert(keyed_entries(r.requests@) =~= Seq::<(Seq<char>, (u32, u64))>::empty());
            assert(r@.requests =~= Map::<Seq<char>, (u32, u64)>::empty());
        }
        r
    }

    /// Count a request from `ip` at `now_ms` against its window and
    /// report the resulting budget.
    pub fn check_rate_limit(&mut self, ip: &str, now_ms: u64) -> (r: RateLimitInfo)
        ensures
            final(self)@ == rate_limit_step(old(self)@, ip@, now_ms).0,
            r == rate_limit_step(old(self)@, ip@, now_ms).1,
    {
        proof {
            use_type_invariant(&*self);
        }
        let ghost m0 = self@;
        let key = ip.to_owned();
        let mut entries: Vec<(String, (u32, u64))> = Vec::new();
        core::mem::swap(&mut entries, &mut self.requests);
        let ghost s = keyed_entries(entries@);
        let limit = self.max_requests;
        match find_entry(&entries, &key) {
            Some(i) => {
                proof {
                    assert(s[i as int] == (entries@[i as int].0@, entries@[i as int].1));
                    lemma_assoc_map_index(s, i as int);
                }
                let (count, start) = entries[i].1;
                if elapsed_ms(now_ms, start) > self.window_ms {
                    entries.remove(i);
                    entries.push((key, (1, now_ms)));
                    proof {
                        self.lemma_replace_entry(entries@, s, i as int, ip@, (1, now_ms));
                    }
                    self.requests = entries;
                    RateLimitInfo {
                        limit,
                        remaining: limit - 1,
                        reset: self.window_seconds,
                        limited: false,
                    }
                } else {
                    let elapsed = elapsed_ms(now_ms, start);
                    let reset_in: u64 = if elapsed >= self.window_ms {
                        0
                    } else {
                        proof {
                            assert(elapsed / 1000 < self.window_seconds) by (nonlinear_arith)
                                requires
                                    elapsed < self.window_ms,
                                    self.window_ms == self.window_seconds * 1000,
                            ;
                        }
                        self.window_seconds - elapsed / 1000
                    };
                    if count >= self.max_requests {
                        self.requests = entries;
                        proof {
                            assert(self@ =~~= rate_limit_step(m0, ip@, now_ms).0);
                        }
                        RateLimitInfo { limit, remaining: 0, reset: reset_in, limited: true }
                    } else {
                        let c2 = count + 1;
                        entries.remove(i);
                        entries.push((key, (c2, start)));
                        proof {
                            self.lemma_replace_entry(entries@, s, i as int, ip@, (c2, start));
                        }
                        self.requests = entries;
                        RateLimitInfo {
                            limit,
                            remaining: limit - c2,
                            reset: reset_in,
                            limited: false,
                        }
                    }
                }
            },
            None => {
                proof {
                    lemma_assoc_map_dom(s, ip@);
                    lemma_assoc_map_push(s, ip@, (1, now_ms));
                    assert(keyed_entries(entries@.push((key, (1, now_ms)))) =~= s.push(
                        (ip@, (1, now_ms)),
                    ));
                    assert forall|a: int, b: int|
                        0 <= a < b < s.push((ip@, (1, now_ms))).len() implies s.push(
                        (ip@, (1, now_ms)),
                    )[a].0 != s.push((ip@, (1, now_ms)))[b].0 by {
                        if b == s.len() {
                            assert(s.push((ip@, (1, now_ms)))[b] == (ip@, (1u32, now_ms)));
                        }
                    }
                }
                entries.push((key, (1, now_ms)));
                self.requests = entries;
                RateLimitInfo {
                    limit,
                    remaining: limit - 1,
                    reset: self.window_seconds,
                    limited: false,
                }
            },
        }
    }

    /// Replacing the entry at `i` (whose key is `k`) with a fresh pair
    /// for the same key rebinds that key and nothing else.
    proof fn lemma_replace_entry(
        &self,
        after: Seq<(String, (u32, u64))>,
        s: Seq<(Seq<char>, (u32, u64))>,
        i: int,
        k: Seq<char>,
        v: (u32, u64),
    )
        requires
            distinct_keys(s),
            0 <= i < s.len(),
            s[i].0 == k,
            keyed_entries(after) =~= s.remove(i).push((k, v)),
        ensures
            assoc_map(keyed_entries(after)) == assoc_map(s).insert(k, v),
            distinct_keys(keyed_entries(after)),
    {
        lemma_assoc_map_remove_at(s, i);
        lemma_assoc_map_push(s.remove(i), k, v);
        assert(assoc_map(s).remove(k).insert(k, v) =~= assoc_map(s).insert(k, v));
        let t = s.remove(i).push((k, v));
        assert forall|a: int, b: int| 0 <= a < b < t.len() implies t[a].0 != t[b].0 by {
            lemma_assoc_map_dom(s.remove(i), k);
            if b == t.len() - 1 {
                assert(t[b] == (k, v));
                assert(s.remove(i)[a] == t[a]);
            }
        }
    }

    /// Drop entries whose window start has fallen out of the window.
    pub fn cleanup(&mut self, now_ms: u64)
        ensures
            final(self)@ == rate_limit_cleanup_step(old(self)@, now_ms),
    {
        proof {
            use_type_invariant(&*self);
        }
        let ghost m0 = self@;
        let mut entries: Vec<(String, (u32, u64))> = Vec::new();
        core::mem::swap(&mut entries, &mut self.requests);
        let ghost s = keyed_entries(entries@);
        let mut kept: Vec<(String, (u32, u64))> = Vec::new();
        let n = entries.len();
        let w = self.window_ms;
        let mut i: usize = 0;
        while i < n
            invariant
                distinct_keys(s),
                s == keyed_entries(entries@),
                forall|j: int| 0 <= j < entries@.len() ==> 1 <= (#[trigger] entries@[j]).1.0
                    <= self.max_requests,
                m0.requests == assoc_map(s),
                n == entries@.len(),
                0 <= i <= n,
                w == m0.window_ms,
                keyed_entries(kept@) =~= keyed_entries(entries@.take(i as int)).filter(
                    |e: (Seq<char>, (u32, u64))| time_since(now_ms, e.1.1) <= w,
                ),
                forall|j: int| 0 <= j < kept@.len() ==> kept@.contains(#[trigger] kept@[j])
                    && entries@.contains(kept@[j]),
            decreases n - i,
        {
            proof {
                reveal(Seq::filter);
                assert(keyed_entries(entries@.take(i + 1)).drop_last() =~= keyed_entries(
                    entries@.take(i as int),
                ));
                assert(keyed_entries(entries@.take(i + 1)).last() == s[i as int]);
            }
            let e = (entries[i].0.clone(), entries[i].1);
            if elapsed_ms(now_ms, e.1 .1) <= w {
                kept.push(e);
                proof {
                    assert(keyed_entries(kept@).drop_last() =~= keyed_entries(
                        kept@.drop_last(),
                    ));
                    assert(entries@.contains(entries@[i as int]));
                    assert(kept@.last() == entries@[i as int]);
                }
            }
            i = i + 1;
        }
        proof {
            assert(entries@.take(n as int) =~= entries@);
            lemma_filtered_assoc(s, |e: (Seq<char>, (u32, u64))| time_since(now_ms, e.1.1) <= w);
            assert(assoc_map(keyed_entries(kept@)) =~= rate_limit_cleanup_step(m0, now_ms).requests);
        }
        self.requests = kept;
        proof {
            assert(self@ =~~= rate_limit_cleanup_step(m0, now_ms));
        }
    }
}

/// The rate-limit response headers for one answer: the limit, the
/// remaining budget and the reset delay, each in decimal notation.
pub fn rate_limit_headers(info: &RateLimitInfo) -> (r: Vec<(&'static str, String)>)
    ensures
        r@.len() == 3,
        r@[0].0@ == "X-RateLimit-Limit"@ && r@[0].1@ == spec_decimal(info.limit as nat),
        r@[1].0@ == "X-RateLimit-Remaining"@ && r@[1].1@ == spec_decimal(info.remaining as nat),
        r@[2].0@ == "X-RateLimit-Reset"@ && r@[2].1@ == spec_decimal(info.reset as nat),
{
    let mut headers: Vec<(&'static str, String)> = Vec::new();
    headers.push(("X-RateLimit-Limit", decimal(info.limit as u64)));
    headers.push(("X-RateLimit-Remaining", decimal(info.remaining as u64)));
    headers.push(("X-RateLimit-Reset", decimal(info.reset)));
    headers
}

/// The index of the entry carrying `key`, if one exists.
fn find_entry(entries: &Vec<(String, (u32, u64))>, key: &String) -> (r: Option<usize>)
    ensures
        match r {
            Some(i) => i < entries@.len() && entries@[i as int].0@ == key@,
            None => forall|j: int| 0 <= j < entries@.len() ==> (#[trigger] entries@[j]).0@ != key@,
        },
{
    let n = entries.len();
    let mut i: usize = 0;
    while i < n
        invariant
            n == entries@.len(),
            0 <= i <= n,
            forall|j: int| 0 <= j < i ==> (#[trigger] entries@[j]).0@ != key@,
        decreases n - i,
    {
        if entries[i].0 == *key {
            return Some(i);
        }
        i = i + 1;
    }
    None
}

/// With distinct keys, filtering an entry sequence by a predicate on
/// its pairs restricts the described map to the keys whose pair
/// satisfies the predicate.
proof fn lemma_filtered_assoc(
    s: Seq<(Seq<char>, (u32, u64))>,
    p: spec_fn((Seq<char>, (u32, u64))) -> bool,
)
    requires
        distinct_keys(s),
    ensures
        distinct_keys(s.filter(p)),
        assoc_map(s.filter(p)) =~= Map::new(
            |k: Seq<char>| assoc_map(s).dom().contains(k) && p((k, assoc_map(s)[k])),
            |k: Seq<char>| assoc_map(s)[k],
        ),
    decreases s.len(),
{
    reveal(Seq::filter);
    if s.len() == 0 {
        assert(assoc_map(s.filter(p)) =~= Map::<Seq<char>, (u32, u64)>::empty());
    } else {
        let s0 = s.drop_last();
        let e = s.last();
        assert forall|a: int, b: int| 0 <= a < b < s0.len() implies s0[a].0 != s0[b].0 by {
            assert(s0[a] == s[a] && s0[b] == s[b]);
        }
        lemma_filtered_assoc(s0, p);
        lemma_assoc_map_dom(s0, e.0);
        assert forall|j: int| 0 <= j < s0.len() implies s0[j].0 != e.0 by {
            assert(s0[j] == s[j]);
        }
        if p(e) {
            lemma_assoc_map_push(s0.filter(p), e.0, e.1);
            assert(s.filter(p) == s0.filter(p).push(e));
            assert forall|a: int, b: int|
                0 <= a < b < s.filter(p).len() implies s.filter(p)[a].0 != s.filter(p)[b].0 by {
                if b == s.filter(p).len() - 1 {
                    let fa = s.filter(p)[a];
                    assert(s0.filter(p)[a] == fa);
                    lemma_filter_element_of(s0, p, a);
                } else {
                    assert(s0.filter(p)[a] == s.filter(p)[a]);
                    assert(s0.filter(p)[b] == s.filter(p)[b]);
                }
            }
            assert(assoc_map(s.filter(p)) =~= Map::new(
                |k: Seq<char>| assoc_map(s).dom().contains(k) && p((k, assoc_map(s)[k])),
                |k: Seq<char>| assoc_map(s)[k],
            ));
        } else {
            assert(s.filter(p) == s0.filter(p));
            assert(assoc_map(s.filter(p)) =~= Map::new(
                |k: Seq<char>| assoc_map(s).dom().contains(k) && p((k, assoc_map(s)[k])),
                |k: Seq<char>| assoc_map(s)[k],
            ));
        }
    }
}

/// Every element of a filtered sequence is an element of the
/// unfiltered one.
proof fn lemma_filter_element_of(
    s: Seq<(Seq<char>, (u32, u64))>,
    p: spec_fn((Seq<char>, (u32, u64))) -> bool,
    i: int,
)
    requires
        0 <= i < s.filter(p).len(),
    ensures
        exists|j: int| 0 <= j < s.len() && s[j] == s.filter(p)[i],
    decreases s.len(),
{
    reveal(Seq::filter);
    if s.len() > 0 {
        let s0 = s.drop_last();
        if p(s.last()) && i == s.filter(p).len() - 1 {
            assert(s[s.len() - 1] == s.filter(p)[i]);
        } else {
            lemma_filter_element_of(s0, p, i);
            let j = choose|j: int| 0 <= j < s0.len() && s0[j] == s0.filter(p)[i];
            assert(s[j] == s.filter(p)[i]);
        }
    }
}

} // verus!
