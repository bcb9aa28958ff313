//! Per-client heuristic scoring across three independent signals.
//!
//! [`ActivityDetector`] watches, per client: consecutive failing
//! responses, the diversity of paths requested, and the spacing of
//! request timestamps.  Each signal answers `true` when its threshold
//! is crossed; the caller must then blacklist the offending client.
//! Failure streaks persist across the maintenance cycle; path and
//! timing state are time-scoped and bounded by [`ActivityDetector::cleanup`].

use vstd::prelude::*;

use crate::assoc::{lemma_assoc_map_dom, lemma_assoc_map_index};
use crate::client::ClientIp;
use crate::client_map::ClientMap;
use crate::clock::{elapsed_ms, time_since};
use crate::path_set::PathSet;

verus! {

/// The bound that [`ActivityDetector::with_config`] places on the
/// timing window, so the conversion to milliseconds cannot overflow.
pub const MAX_TIMING_WINDOW_SECONDS: u64 = 0xFFFF_FFFF;

/// Mathematical state of an [`ActivityDetector`].
#[verifier::ext_equal]
pub struct DetectorModel {
    /// Consecutive failing responses per client.
    pub failures: Map<ClientIp, u32>,
    /// Distinct request paths recently seen per client.
    pub paths: Map<ClientIp, Set<Seq<char>>>,
    /// Request timestamps per client, newest last.
    pub timing: Map<ClientIp, Seq<u64>>,
    /// Failure streak length that triggers a violation.
    pub max_failures: u32,
    /// Distinct path count beyond which a violation triggers.
    pub max_path_diversity: nat,
    /// How far back timing history reaches.
    pub timing_window_ms: u64,
    /// Requests closer together than this look automated.
    pub min_request_interval_ms: u64,
}

/// The failure streak recorded for `c` (zero when no counter exists).
pub open spec fn spec_failure_count(m: DetectorModel, c: ClientIp) -> nat {
    if m.failures.dom().contains(c) {
        m.failures[c] as nat
    } else {
        0
    }
}

/// The path set recorded for `c` (empty when none exists).
pub open spec fn spec_client_paths(m: DetectorModel, c: ClientIp) -> Set<Seq<char>> {
    if m.paths.dom().contains(c) {
        m.paths[c]
    } else {
        Set::empty()
    }
}

/// The timing history recorded for `c` (empty when none exists).
pub open spec fn spec_client_timing(m: DetectorModel, c: ClientIp) -> Seq<u64> {
    if m.timing.dom().contains(c) {
        m.timing[c]
    } else {
        Seq::empty()
    }
}

/// One `track_failure` transition.  The streak grows by one; reaching
/// `max_failures` deletes the counter and signals a violation — the
/// threshold fires exactly once per streak.
pub open spec fn failure_step(m: DetectorModel, c: ClientIp) -> (DetectorModel, bool) {
    let n = spec_failure_count(m, c) + 1;
    if n >= m.max_failures {
        (DetectorModel { failures: m.failures.remove(c), ..m }, true)
    } else {
        (DetectorModel { failures: m.failures.insert(c, n as u32), ..m }, false)
    }
}

/// One `reset_failures` transition: the streak is gone entirely.
pub open spec fn reset_step(m: DetectorModel, c: ClientIp) -> DetectorModel {
    DetectorModel { failures: m.failures.remove(c), ..m }
}

/// One `track_path` transition.  The path joins the client's set; a
/// set grown past `max_path_diversity` is deleted and a violation
/// signalled.
pub open spec fn path_step(m: DetectorModel, c: ClientIp, p: Seq<char>) -> (DetectorModel, bool) {
    let s = spec_client_paths(m, c).insert(p);
    if s.len() > m.max_path_diversity {
        (DetectorModel { paths: m.paths.remove(c), ..m }, true)
    } else {
        (DetectorModel { paths: m.paths.insert(c, s), ..m }, false)
    }
}

/// The timestamps of `ts` still within `window_ms` of `now`, in order.
pub open spec fn pruned(ts: Seq<u64>, now: u64, window_ms: u64) -> Seq<u64>
    decreases ts.len(),
{
    if ts.len() == 0 {
        Seq::empty()
    } else {
        let rest = pruned(ts.drop_last(), now, window_ms);
        if time_since(now, ts.last()) < window_ms {
            rest.push(ts.last())
        } else {
            rest
        }
    }
}

/// One `track_timing` transition.  History is pruned to the window;
/// a request closer than `min_request_interval` to the latest retained
/// timestamp, with more than five timestamps already in the window, is
/// a violation and is not recorded; otherwise the request's time is
/// appended.
pub open spec fn timing_step(m: DetectorModel, c: ClientIp, now: u64) -> (DetectorModel, bool) {
    let kept = pruned(spec_client_timing(m, c), now, m.timing_window_ms);
    if kept.len() > 5 && time_since(now, kept.last()) < m.min_request_interval_ms {
        (DetectorModel { timing: m.timing.insert(c, kept), ..m }, true)
    } else {
        (DetectorModel { timing: m.timing.insert(c, kept.push(now)), ..m }, false)
    }
}

/// One `cleanup` transition: all path sets are dropped wholesale,
/// timing histories are pruned to the window and clients left with
/// empty histories are dropped, and failure counters are untouched.
pub open spec fn detector_cleanup_step(m: DetectorModel, now: u64) -> DetectorModel {
    DetectorModel {
        paths: Map::empty(),
        timing: Map::new(
            |c: ClientIp| m.timing.dom().contains(c) && pruned(
                m.timing[c],
                now,
                m.timing_window_ms,
            ).len() > 0,
            |c: ClientIp| pruned(m.timing[c], now, m.timing_window_ms),
        ),
        ..m
    }
}

/// Detects suspicious per-client activity.
pub struct ActivityDetector {
    failures: ClientMap<u32>,
    path_diversity: ClientMap<PathSet>,
    request_timing: ClientMap<Vec<u64>>,
    max_failures: u32,
    max_path_diversity: usize,
    timing_window_ms: u64,
    min_request_interval_ms: u64,
}

impl View for ActivityDetector {
    type V = DetectorModel;

    closed spec fn view(&self) -> DetectorModel {
        DetectorModel {
            failures: self.failures@,
            paths: self.path_diversity@.map_values(|ps: PathSet| ps@),
            timing: self.request_timing@.map_values(|v: Vec<u64>| v@),
            max_failures: self.max_failures,
            max_path_diversity: self.max_path_diversity as nat,
            timing_window_ms: self.timing_window_ms,
            min_request_interval_ms: self.min_request_interval_ms,
        }
    }
}

impl ActivityDetector {
    #[verifier::type_invariant]
    spec fn inv(self) -> bool {
        &&& self.failures.wf()
        &&& self.path_diversity.wf()
        &&& self.request_timing.wf()
        &&& forall|c: ClientIp| #[trigger] self.failures@.dom().contains(c)
            ==> self.failures@[c] < self.max_failures
        &&& forall|c: ClientIp| #[trigger] self.path_diversity@.dom().contains(c)
            ==> self.path_diversity@[c]@.len() <= self.max_path_diversity
                && self.path_diversity@[c]@.finite()
    }

    /// A detector with the stock thresholds: ten consecutive failures,
    /// twenty distinct paths, a one-minute timing window, and a 50 ms
    /// minimum interval between requests.
    pub fn new() -> (r: Self)
        ensures
            r@ == (DetectorModel {
                failures: Map::empty(),
                paths: Map::empty(),
                timing: Map::empty(),
                max_failures: 10,
                max_path_diversity: 20,
                timing_window_ms: 60000,
                min_request_interval_ms: 50,
            }),
    {
        let r = ActivityDetector {
            failures: ClientMap::new(),
            path_diversity: ClientMap::new(),
            request_timing: ClientMap::new(),
            max_failures: 10,
            max_path_diversity: 20,
            timing_window_ms: 60000,
            min_request_interval_ms: 50,
        };
        proof {
            assert(r@ =~~= (DetectorModel {
                failures: Map::empty(),
                paths: Map::empty(),
                timing: Map::empty(),
                max_failures: 10,
                max_path_diversity: 20,
                timing_window_ms: 60000,
                min_request_interval_ms: 50,
            }));
        }
        r
    }

    /// A detector with explicit thresholds.
    pub fn with_config(
        max_failures: u32,
        max_path_diversity: usize,
        timing_window_seconds: u64,
        min_request_interval_ms: u64,
    ) -> (r: Self)
        requires
            timing_window_seconds <= MAX_TIMING_WINDOW_SECONDS,
        ensures
            r@ == (DetectorModel {
                failures: Map::empty(),
                paths: Map::empty(),
                timing: Map::empty(),
                max_failures: max_failures,
                max_path_diversity: max_path_diversity as nat,
                timing_window_ms: (timing_window_seconds * 1000) as u64,
                min_request_interval_ms: min_request_interval_ms,
            }),
    {
        let r = ActivityDetector {
            failures: ClientMap::new(),
            path_diversity: ClientMap::new(),
            request_timing: ClientMap::new(),
            max_failures,
            max_path_diversity,
            timing_window_ms: timing_window_seconds * 1000,
            min_request_interval_ms,
        };
        proof {
            assert(r@.failures =~= Map::<ClientIp, u32>::empty());
            assert(r@.paths =~= Map::<ClientIp, Set<Seq<char>>>::empty());
            assert(r@.timing =~= Map::<ClientIp, Seq<u64>>::empty());
        }
        r
    }

    /// Record a failing response for `ip`; `true` means the failure
    /// streak reached the threshold and the caller must blacklist.
    pub fn track_failure(&mut self, ip: &ClientIp) -> (r: bool)
        ensures
            final(self)@ == failure_step(old(self)@, *ip).0,
            r == failure_step(old(self)@, *ip).1,
    {
        proof {
            use_type_invariant(&*self);
        }
        let ghost m0 = self@;
        let mut failures: ClientMap<u32> = ClientMap::new();
        core::mem::swap(&mut failures, &mut self.failures);
        let count = match failures.get(ip) {
            Some(c) => *c,
            None => 0,
        };
        let n = count + 1;
        if n >= self.max_failures {
            failures.remove(ip);
            self.failures = failures;
            proof {
                assert(self@ =~~= failure_step(m0, *ip).0);
            }
            true
        } else {
            failures.insert(*ip, n);
            self.failures = failures;
            proof {
                assert(self@ =~~= failure_step(m0, *ip).0);
            }
            false
        }
    }

    /// Forget `ip`'s failure streak; a no-op when none exists.
    pub fn reset_failures(&mut self, ip: &ClientIp)
        ensures
            final(self)@ == reset_step(old(self)@, *ip),
    {
        proof {
            use_type_invariant(&*self);
        }
        let ghost m0 = self@;
        let mut failures: ClientMap<u32> = ClientMap::new();
        core::mem::swap(&mut failures, &mut self.failures);
        failures.remove(ip);
        self.failures = failures;
        proof {
            assert(self@ =~~= reset_step(m0, *ip));
        }
    }

    /// Record that `ip` requested `path`; `true` means the client's
    /// path diversity crossed the threshold and the caller must
    /// blacklist.
    pub fn track_path(&mut self, ip: &ClientIp, path: &str) -> (r: bool)
        ensures
            final(self)@ == path_step(old(self)@, *ip, path@).0,
            r == path_step(old(self)@, *ip, path@).1,
    {
        proof {
            use_type_invariant(&*self);
        }
        let ghost m0 = self@;
        let p = path.to_owned();
        let mut pd: ClientMap<PathSet> = ClientMap::new();
        core::mem::swap(&mut pd, &mut self.path_diversity);
        let mut ps = match pd.remove(ip) {
            Some(ps) => ps,
            None => PathSet::new(),
        };
        proof {
            assert(ps@ == spec_client_paths(m0, *ip));
        }
        ps.insert(p);
        if ps.len() > self.max_path_diversity {
            self.path_diversity = pd;
            proof {
                assert(self@.paths =~= m0.paths.remove(*ip));
                assert(self@ =~~= path_step(m0, *ip, path@).0);
            }
            true
        } else {
            pd.insert(*ip, ps);
            self.path_diversity = pd;
            proof {
                assert(self@.paths =~= m0.paths.insert(*ip, spec_client_paths(m0, *ip).insert(p@)));
                assert(self@ =~~= path_step(m0, *ip, path@).0);
            }
            false
        }
    }

    /// Record a request from `ip` at `now_ms`; `true` means the
    /// request followed the previous one implausibly fast and the
    /// caller must blacklist.
    pub fn track_timing(&mut self, ip: &ClientIp, now_ms: u64) -> (r: bool)
        ensures
            final(self)@ == timing_step(old(self)@, *ip, now_ms).0,
            r == timing_step(old(self)@, *ip, now_ms).1,
    {
        proof {
            use_type_invariant(&*self);
        }
        let ghost m0 = self@;
        let mut tm: ClientMap<Vec<u64>> = ClientMap::new();
        core::mem::swap(&mut tm, &mut self.request_timing);
        let ts: Vec<u64> = match tm.remove(ip) {
            Some(v) => v,
            None => Vec::new(),
        };
        proof {
            assert(ts@ == spec_client_timing(m0, *ip));
        }
        let mut kept = prune_timestamps(&ts, now_ms, self.timing_window_ms);
        let klen = kept.len();
        if klen > 5 && elapsed_ms(now_ms, kept[klen - 1]) < self.min_request_interval_ms {
            tm.insert(*ip, kept);
            self.request_timing = tm;
            proof {
                assert(self@.timing =~= timing_step(m0, *ip, now_ms).0.timing);
                assert(self@ =~~= timing_step(m0, *ip, now_ms).0);
            }
            true
        } else {
            kept.push(now_ms);
            tm.insert(*ip, kept);
            self.request_timing = tm;
            proof {
                assert(self@.timing =~= timing_step(m0, *ip, now_ms).0.timing);
                assert(self@ =~~= timing_step(m0, *ip, now_ms).0);
            }
            false
        }
    }

    /// Periodic maintenance: clear all path sets, prune timing
    /// histories, drop clients left with no timestamps.  Failure
    /// counters only change through `track_failure`/`reset_failures`.
    pub fn cleanup(&mut self, now_ms: u64)
        ensures
            final(self)@ == detector_cleanup_step(old(self)@, now_ms),
    {
        proof {
            use_type_invariant(&*self);
        }
        let ghost m0 = self@;
        self.path_diversity = ClientMap::new();
        let mut tm: ClientMap<Vec<u64>> = ClientMap::new();
        core::mem::swap(&mut tm, &mut self.request_timing);
        let ghost s = tm.kvs();
        let mut kept_map: ClientMap<Vec<u64>> = ClientMap::new();
        let n = tm.len();
        let w = self.timing_window_ms;
        let mut i: usize = 0;
        while i < n
            invariant
                tm.wf(),
                kept_map.wf(),
                s == tm.kvs(),
                n == s.len(),
                0 <= i <= n,
                w == m0.timing_window_ms,
                m0.timing == tm@.map_values(|v: Vec<u64>| v@),
                forall|c: ClientIp| #[trigger] kept_map@.dom().contains(c) <==> exists|j: int|
                    0 <= j < i && s[j].0 == c && pruned(s[j].1@, now_ms, w).len() > 0,
                forall|c: ClientIp| #[trigger] kept_map@.dom().contains(c) ==> kept_map@[c]@
                    == pruned(m0.timing[c], now_ms, w),
            decreases n - i,
        {
            let k = tm.key_at(i);
            let ts = tm.val_at(i);
            let kept = prune_timestamps(ts, now_ms, w);
            if kept.len() > 0 {
                proof {
                    lemma_assoc_map_index(s, i as int);
                }
                let ghost kept0 = kept_map@;
                kept_map.insert(k, kept);
                proof {
                    assert forall|c: ClientIp| #[trigger] kept_map@.dom().contains(c) implies
                        exists|j: int|
                            0 <= j < i + 1 && s[j].0 == c && pruned(s[j].1@, now_ms, w).len()
                                > 0 by {
                        if c == k {
                            assert(s[i as int].0 == c && pruned(s[i as int].1@, now_ms, w).len()
                                > 0);
                        } else {
                            assert(kept0.dom().contains(c));
                        }
                    }
                    assert forall|c: ClientIp| #[trigger] kept_map@.dom().contains(c) implies
                        kept_map@[c]@ == pruned(m0.timing[c], now_ms, w) by {
                        if c != k {
                            assert(kept0.dom().contains(c));
                        }
                    }
                }
            }
            i = i + 1;
        }
        proof {
            assert forall|c: ClientIp|
                #[trigger] kept_map@.dom().contains(c) == (m0.timing.dom().contains(c) && pruned(
                m0.timing[c],
                now_ms,
                w,
            ).len() > 0) by {
                lemma_assoc_map_dom(s, c);
                if exists|j: int| 0 <= j < n && s[j].0 == c {
                    let j = choose|j: int| 0 <= j < n && s[j].0 == c;
                    lemma_assoc_map_index(s, j);
                }
            }
        }
        self.request_timing = kept_map;
        proof {
            assert(self@.timing =~= detector_cleanup_step(m0, now_ms).timing);
            assert(self@.paths =~= Map::<ClientIp, Set<Seq<char>>>::empty());
            assert(self@ =~~= detector_cleanup_step(m0, now_ms));
        }
    }
}

/// The timestamps of `ts` still within `window_ms` of `now_ms`.
fn prune_timestamps(ts: &Vec<u64>, now_ms: u64, window_ms: u64) -> (r: Vec<u64>)
    ensures
        r@ == pruned(ts@, now_ms, window_ms),
{
    let mut kept: Vec<u64> = Vec::new();
    let n = ts.len();
    let mut i: usize = 0;
    while i < n
        invariant
            n == ts@.len(),
            0 <= i <= n,
            kept@ == pruned(ts@.take(i as int), now_ms, window_ms),
        decreases n - i,
    {
        proof {
            assert(ts@.take(i + 1).drop_last() =~= ts@.take(i as int));
            assert(ts@.take(i + 1).last() == ts@[i as int]);
        }
        if elapsed_ms(now_ms, ts[i]) < window_ms {
            kept.push(ts[i]);
        }
        i = i + 1;
    }
    proof {
        assert(ts@.take(n as int) =~= ts@);
    }
    kept
}

/// Every one of `k` consecutive `track_failure` calls for `c` returns
/// `false`.
pub open spec fn failure_calls_all_clear(m: DetectorModel, c: ClientIp, k: nat) -> bool
    decreases k,
{
    k == 0 || {
        let (next, flagged) = failure_step(m, c);
        !flagged && failure_calls_all_clear(next, c, (k - 1) as nat)
    }
}

/// The state after `k` consecutive `track_failure` calls for `c`.
pub open spec fn failure_state_after(m: DetectorModel, c: ClientIp, k: nat) -> DetectorModel
    decreases k,
{
    if k == 0 {
        m
    } else {
        failure_state_after(failure_step(m, c).0, c, (k - 1) as nat)
    }
}

/// While the streak stays below the threshold, failures accumulate
/// one by one and none of them signals a violation.
pub proof fn lemma_failure_streak_progress(m: DetectorModel, c: ClientIp, k: nat)
    requires
        spec_failure_count(m, c) + k < m.max_failures,
    ensures
        failure_calls_all_clear(m, c, k),
        spec_failure_count(failure_state_after(m, c, k), c) == spec_failure_count(m, c) + k,
        failure_state_after(m, c, k).max_failures == m.max_failures,
    decreases k,
{
    if k > 0 {
        let (next, flagged) = failure_step(m, c);
        assert(spec_failure_count(next, c) == spec_failure_count(m, c) + 1);
        lemma_failure_streak_progress(next, c, (k - 1) as nat);
    }
}

/// A client with no recorded failures accumulating `max_failures`
/// consecutive failing responses is flagged exactly on the last one:
/// the first `max_failures - 1` calls return `false`, the next call
/// returns `true`.  A success in between removes the counter
/// ([`reset_step`]), putting the client back at streak zero.
pub proof fn lemma_failure_streak_threshold(m: DetectorModel, c: ClientIp)
    requires
        spec_failure_count(m, c) == 0,
        m.max_failures >= 1,
    ensures
        failure_calls_all_clear(m, c, (m.max_failures - 1) as nat),
        failure_step(failure_state_after(m, c, (m.max_failures - 1) as nat), c).1,
{
    lemma_failure_streak_progress(m, c, (m.max_failures - 1) as nat);
}

/// `reset_failures` leaves the client at streak zero, whatever the
/// streak was: its counter is gone, other clients' counters are
/// untouched, and resetting again changes nothing.  When the
/// threshold is at least two, the failure after a reset is not itself
/// a violation and restarts the count at one.
pub proof fn lemma_reset_clears_streak(m: DetectorModel, c: ClientIp)
    ensures
        spec_failure_count(reset_step(m, c), c) == 0,
        !reset_step(m, c).failures.dom().contains(c),
        forall|o: ClientIp| o != c ==> spec_failure_count(reset_step(m, c), o)
            == spec_failure_count(m, o),
        reset_step(reset_step(m, c), c) == reset_step(m, c),
        m.max_failures >= 2 ==> !failure_step(reset_step(m, c), c).1 && spec_failure_count(
            failure_step(reset_step(m, c), c).0,
            c,
        ) == 1,
{
    assert(reset_step(reset_step(m, c), c) =~~= reset_step(m, c));
}

/// Every one of `k` consecutive `track_path` calls for `c` with path
/// `p` returns `false`.
pub open spec fn path_calls_all_clear(m: DetectorModel, c: ClientIp, p: Seq<char>, k: nat) -> bool
    decreases k,
{
    k == 0 || {
        let (next, flagged) = path_step(m, c, p);
        !flagged && path_calls_all_clear(next, c, p, (k - 1) as nat)
    }
}

/// A path that fits in the client's set — in particular one the set
/// already holds — never trips the diversity signal, no matter how
/// often it is requested.
pub proof fn lemma_repeated_path_never_flags(m: DetectorModel, c: ClientIp, p: Seq<char>, k: nat)
    requires
        spec_client_paths(m, c).finite(),
        spec_client_paths(m, c).insert(p).len() <= m.max_path_diversity,
    ensures
        path_calls_all_clear(m, c, p, k),
    decreases k,
{
    if k > 0 {
        let s = spec_client_paths(m, c).insert(p);
        let (next, flagged) = path_step(m, c, p);
        assert(spec_client_paths(next, c) == s);
        assert(s.insert(p) =~= s);
        lemma_repeated_path_never_flags(next, c, p, (k - 1) as nat);
    }
}

/// A client with no recorded paths can request one and the same path
/// any number of times without ever triggering the diversity signal.
pub proof fn lemma_single_path_from_cold(m: DetectorModel, c: ClientIp, p: Seq<char>, k: nat)
    requires
        !m.paths.dom().contains(c),
        m.max_path_diversity >= 1,
    ensures
        path_calls_all_clear(m, c, p, k),
{
    assert(spec_client_paths(m, c).insert(p).len() == 1) by {
        assert(Set::<Seq<char>>::empty().insert(p).len() == 1);
    }
    lemma_repeated_path_never_flags(m, c, p, k);
}

/// Every one of the calls `track_timing(c, times[i])` returns `false`.
pub open spec fn timing_calls_all_clear(m: DetectorModel, c: ClientIp, times: Seq<u64>) -> bool
    decreases times.len(),
{
    times.len() == 0 || {
        let (next, flagged) = timing_step(m, c, times[0]);
        !flagged && timing_calls_all_clear(next, c, times.skip(1))
    }
}

/// Pruning never lengthens a history.
pub proof fn lemma_pruned_len(ts: Seq<u64>, now: u64, window_ms: u64)
    ensures
        pruned(ts, now, window_ms).len() <= ts.len(),
    decreases ts.len(),
{
    if ts.len() > 0 {
        lemma_pruned_len(ts.drop_last(), now, window_ms);
    }
}

/// A client's first requests are never flagged by timing alone: as
/// long as recorded history plus the number of calls stays within six,
/// every call is accepted, whatever its timing.
pub proof fn lemma_cold_timing_never_flags(m: DetectorModel, c: ClientIp, times: Seq<u64>)
    requires
        spec_client_timing(m, c).len() + times.len() <= 6,
    ensures
        timing_calls_all_clear(m, c, times),
    decreases times.len(),
{
    if times.len() > 0 {
        let ts = spec_client_timing(m, c);
        lemma_pruned_len(ts, times[0], m.timing_window_ms);
        let (next, flagged) = timing_step(m, c, times[0]);
        assert(!flagged);
        assert(spec_client_timing(next, c).len() <= ts.len() + 1);
        lemma_cold_timing_never_flags(next, c, times.skip(1));
    }
}

/// Every timestamp a pruning retains lies within the window.
pub proof fn lemma_pruned_within(ts: Seq<u64>, now: u64, window_ms: u64)
    ensures
        forall|i: int| 0 <= i < pruned(ts, now, window_ms).len() ==> time_since(
            now,
            #[trigger] pruned(ts, now, window_ms)[i],
        ) < window_ms,
    decreases ts.len(),
{
    if ts.len() > 0 {
        lemma_pruned_within(ts.drop_last(), now, window_ms);
        let rest = pruned(ts.drop_last(), now, window_ms);
        let out = pruned(ts, now, window_ms);
        if time_since(now, ts.last()) < window_ms {
            assert forall|i: int| 0 <= i < out.len() implies time_since(now, out[i])
                < window_ms by {
                if i < rest.len() {
                    assert(out[i] == rest[i]);
                } else {
                    assert(out[i] == ts.last());
                }
            }
        }
    }
}

/// Pruning a history that is already entirely within the window
/// removes nothing.
pub proof fn lemma_pruned_all_within(ts: Seq<u64>, now: u64, window_ms: u64)
    requires
        forall|i: int| 0 <= i < ts.len() ==> time_since(now, #[trigger] ts[i]) < window_ms,
    ensures
        pruned(ts, now, window_ms) == ts,
    decreases ts.len(),
{
    if ts.len() > 0 {
        assert forall|i: int|
            0 <= i < ts.drop_last().len() implies time_since(now, #[trigger] ts.drop_last()[i])
            < window_ms by {
            assert(ts.drop_last()[i] == ts[i]);
        }
        lemma_pruned_all_within(ts.drop_last(), now, window_ms);
        assert(time_since(now, ts.last()) < window_ms);
        assert(ts.drop_last().push(ts.last()) =~= ts);
    }
}

/// Pruning twice at one instant is the same as pruning once.
pub proof fn lemma_pruned_idempotent(ts: Seq<u64>, now: u64, window_ms: u64)
    ensures
        pruned(pruned(ts, now, window_ms), now, window_ms) == pruned(ts, now, window_ms),
{
    lemma_pruned_within(ts, now, window_ms);
    lemma_pruned_all_within(pruned(ts, now, window_ms), now, window_ms);
}

/// Running the maintenance sweep twice in a row with no intervening
/// traffic changes nothing further: the second pass sees the path map
/// already empty and every timing history already pruned.
pub proof fn lemma_detector_cleanup_idempotent(m: DetectorModel, now: u64)
    ensures
        detector_cleanup_step(detector_cleanup_step(m, now), now) == detector_cleanup_step(
            m,
            now,
        ),
{
    let m1 = detector_cleanup_step(m, now);
    assert forall|c: ClientIp| #[trigger] m1.timing.dom().contains(c) implies pruned(
        m1.timing[c],
        now,
        m1.timing_window_ms,
    ) == m1.timing[c] by {
        lemma_pruned_idempotent(m.timing[c], now, m.timing_window_ms);
    }
    assert(detector_cleanup_step(m1, now).timing =~= m1.timing);
    assert(detector_cleanup_step(m1, now) =~~= m1);
}

} // verus!
