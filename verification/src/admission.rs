//! The admission pipeline: one decision per inbound request.
//!
//! [`DdosProtectionState`] composes the blacklist, the activity
//! detector and the global rate limiter.  Per request the checks run
//! in a fixed order — blacklist, path diversity, burst timing, global
//! volume — and the first one to object decides the outcome; a leaf
//! violation blacklists the client on the spot.  After the downstream
//! handler resolves, [`DdosProtectionState::observe_outcome`] feeds
//! the response class back into the failure-streak accounting.
//!
//! The whitelist exempts a client only from global-attack throttling;
//! blacklist and per-client checks apply to whitelisted addresses too.

use vstd::prelude::*;

use crate::blacklist::{blacklist_check_step, blacklist_cleanup_step, spec_is_blocked,
    BlacklistModel, IpBlacklist, lemma_blacklist_cleanup_idempotent};
use crate::client::{is_whitelisted, spec_is_whitelisted, ClientIp};
use crate::detector::{detector_cleanup_step, failure_step, path_step, reset_step, timing_step,
    ActivityDetector, DetectorModel, lemma_detector_cleanup_idempotent};
use crate::limiter::{limiter_step, GlobalRateLimiter, LimiterModel};

verus! {

/// The outcome of the admission pipeline for one request.
#[derive(Clone, Copy, Debug, PartialEq, Eq, Structural)]
pub enum AdmissionDecision {
    /// All checks passed; forward the request downstream.
    Allow { under_attack: bool },
    /// The client identity could not be resolved; suspicious by
    /// construction, rejected before reaching any per-client state.
    RejectMalformedIdentity,
    /// The client is on the blacklist.
    RejectBlacklisted,
    /// The request tripped the path-diversity signal.
    RejectScanDetected,
    /// The request tripped the burst-timing signal.
    RejectBurstDetected,
    /// The process is under attack and the client is not whitelisted.
    RejectOverload,
}

/// The response class reported back once a request resolves.  A
/// request that never resolves must be reported as a failure to keep
/// the streak accounting consistent.
#[derive(Clone, Copy, Debug, PartialEq, Eq, Structural)]
pub enum ResponseOutcome {
    Success,
    ClientError,
    ServerError,
}

/// Mathematical state of the whole admission layer.
#[verifier::ext_equal]
pub struct AdmissionModel {
    pub limiter: LimiterModel,
    pub blacklist: BlacklistModel,
    pub detector: DetectorModel,
}

/// One `check_request` transition: the state after the request and the
/// decision, with the checks applied in pipeline order and the first
/// objection winning.
pub open spec fn admission_step(
    m: AdmissionModel,
    client: Option<ClientIp>,
    path: Seq<char>,
    now: u64,
) -> (AdmissionModel, AdmissionDecision) {
    match client {
        None => (m, AdmissionDecision::RejectMalformedIdentity),
        Some(c) => {
            let b1 = blacklist_check_step(m.blacklist, c, now);
            if spec_is_blocked(m.blacklist, c, now) {
                (AdmissionModel { blacklist: b1, ..m }, AdmissionDecision::RejectBlacklisted)
            } else {
                let (d1, path_violation) = path_step(m.detector, c, path);
                if path_violation {
                    (
                        AdmissionModel {
                            blacklist: BlacklistModel {
                                blocked: b1.blocked.insert(c, now),
                                ..b1
                            },
                            detector: d1,
                            ..m
                        },
                        AdmissionDecision::RejectScanDetected,
                    )
                } else {
                    let (d2, timing_violation) = timing_step(d1, c, now);
                    if timing_violation {
                        (
                            AdmissionModel {
                                blacklist: BlacklistModel {
                                    blocked: b1.blocked.insert(c, now),
                                    ..b1
                                },
                                detector: d2,
                                ..m
                            },
                            AdmissionDecision::RejectBurstDetected,
                        )
                    } else {
                        let (l1, attacked) = limiter_step(m.limiter, now as nat);
                        let next = AdmissionModel { limiter: l1, blacklist: b1, detector: d2, ..m };
                        if attacked && !spec_is_whitelisted(c) {
                            (next, AdmissionDecision::RejectOverload)
                        } else {
                            (next, AdmissionDecision::Allow { under_attack: attacked })
                        }
                    }
                }
            }
        },
    }
}

/// One `observe_outcome` transition: a success clears the client's
/// failure streak; an error response extends it, and a streak that
/// reaches the threshold blacklists the client.
pub open spec fn outcome_step(
    m: AdmissionModel,
    c: ClientIp,
    outcome: ResponseOutcome,
    now: u64,
) -> AdmissionModel {
    match outcome {
        ResponseOutcome::Success => AdmissionModel { detector: reset_step(m.detector, c), ..m },
        ResponseOutcome::ClientError | ResponseOutcome::ServerError => {
            let (d1, violation) = failure_step(m.detector, c);
            if violation {
                AdmissionModel {
                    blacklist: BlacklistModel {
                        blocked: m.blacklist.blocked.insert(c, now),
                        ..m.blacklist
                    },
                    detector: d1,
                    ..m
                }
            } else {
                AdmissionModel { detector: d1, ..m }
            }
        },
    }
}

/// One maintenance tick: sweep the blacklist and the detector's
/// time-scoped state.  The limiter is only read, never reset, by
/// maintenance.
pub open spec fn maintenance_step(m: AdmissionModel, now: u64) -> AdmissionModel {
    AdmissionModel {
        blacklist: blacklist_cleanup_step(m.blacklist, now),
        detector: detector_cleanup_step(m.detector, now),
        ..m
    }
}

/// Shared state of the admission layer: one limiter, one blacklist,
/// one detector, each keeping its own per-client map.
pub struct DdosProtectionState {
    pub global_limiter: GlobalRateLimiter,
    pub blacklist: IpBlacklist,
    pub detector: ActivityDetector,
}

impl View for DdosProtectionState {
    type V = AdmissionModel;

    open spec fn view(&self) -> AdmissionModel {
        AdmissionModel {
            limiter: self.global_limiter@,
            blacklist: self.blacklist@,
            detector: self.detector@,
        }
    }
}

impl DdosProtectionState {
    /// The stock configuration: 1000 requests per 10 seconds
    /// globally, a 30-minute block, and the detector defaults; the
    /// limiter's first window starts at `now_ms`.
    pub fn new(now_ms: u64) -> (r: Self)
        ensures
            r@.limiter.count == 0,
            r@.limiter.max_requests == 1000,
            r@.limiter.window_ms == 10000,
            r@.limiter.window_start_ms == now_ms,
            !r@.limiter.under_attack,
            r@.blacklist.blocked == Map::<ClientIp, u64>::empty(),
            r@.blacklist.block_duration_ms == 1800000,
            r@.detector.failures == Map::<ClientIp, u32>::empty(),
            r@.detector.paths == Map::<ClientIp, Set<Seq<char>>>::empty(),
            r@.detector.timing == Map::<ClientIp, Seq<u64>>::empty(),
            r@.detector.max_failures == 10,
            r@.detector.max_path_diversity == 20,
            r@.detector.timing_window_ms == 60000,
            r@.detector.min_request_interval_ms == 50,
    {
        DdosProtectionState {
            global_limiter: GlobalRateLimiter::new(1000, 10, now_ms),
            blacklist: IpBlacklist::new(30),
            detector: ActivityDetector::new(),
        }
    }

    /// Run the admission pipeline for a request arriving at `now_ms`
    /// from `client` (or `None` when identity resolution failed) for
    /// `path`.
    pub fn check_request(&mut self, client: Option<ClientIp>, path: &str, now_ms: u64) -> (r:
        AdmissionDecision)
        ensures
            final(self)@ == admission_step(old(self)@, client, path@, now_ms).0,
            r == admission_step(old(self)@, client, path@, now_ms).1,
    {
        let c = match client {
            Some(c) => c,
            None => {
                return AdmissionDecision::RejectMalformedIdentity;
            },
        };
        if self.blacklist.is_blacklisted(&c, now_ms) {
            return AdmissionDecision::RejectBlacklisted;
        }
        if self.detector.track_path(&c, path) {
            self.blacklist.blacklist_ip(c, now_ms);
            return AdmissionDecision::RejectScanDetected;
        }
        if self.detector.track_timing(&c, now_ms) {
            self.blacklist.blacklist_ip(c, now_ms);
            return AdmissionDecision::RejectBurstDetected;
        }
        let under_attack = self.global_limiter.track_request(now_ms);
        if under_attack && !is_whitelisted(&c) {
            return AdmissionDecision::RejectOverload;
        }
        AdmissionDecision::Allow { under_attack }
    }

    /// Report the response class of a request accepted for `client`.
    pub fn observe_outcome(&mut self, client: &ClientIp, outcome: ResponseOutcome, now_ms: u64)
        ensures
            final(self)@ == outcome_step(old(self)@, *client, outcome, now_ms),
    {
        match outcome {
            ResponseOutcome::Success => {
                self.detector.reset_failures(client);
            },
            ResponseOutcome::ClientError | ResponseOutcome::ServerError => {
                if self.detector.track_failure(client) {
                    self.blacklist.blacklist_ip(*client, now_ms);
                }
            },
        }
    }

    /// The periodic maintenance tick: bound memory growth by sweeping
    /// the blacklist and the detector's time-scoped maps.
    pub fn maintain(&mut self, now_ms: u64)
        ensures
            final(self)@ == maintenance_step(old(self)@, now_ms),
    {
        self.blacklist.cleanup(now_ms);
        self.detector.cleanup(now_ms);
    }
}

/// The baseline hardening headers for every response, plus the
/// attack-mode marker when the global flag is set.
pub fn security_headers(under_attack: bool) -> (r: Vec<(&'static str, &'static str)>)
    ensures
        r@.len() == if under_attack { 4int } else { 3int },
        r@[0].0@ == "X-Content-Type-Options"@ && r@[0].1@ == "nosniff"@,
        r@[1].0@ == "X-Frame-Options"@ && r@[1].1@ == "DENY"@,
        r@[2].0@ == "X-XSS-Protection"@ && r@[2].1@ == "1; mode=block"@,
        under_attack ==> r@[3].0@ == "X-Under-Attack-Mode"@ && r@[3].1@ == "true"@,
{
    let mut headers: Vec<(&'static str, &'static str)> = Vec::new();
    headers.push(("X-Content-Type-Options", "nosniff"));
    headers.push(("X-Frame-Options", "DENY"));
    headers.push(("X-XSS-Protection", "1; mode=block"));
    if under_attack {
        headers.push(("X-Under-Attack-Mode", "true"));
    }
    headers
}

/// The HTTP status class each decision maps to.
pub open spec fn spec_status_code(d: AdmissionDecision) -> u16 {
    match d {
        AdmissionDecision::Allow { .. } => 200,
        AdmissionDecision::RejectMalformedIdentity => 400,
        AdmissionDecision::RejectBlacklisted => 403,
        AdmissionDecision::RejectScanDetected => 403,
        AdmissionDecision::RejectBurstDetected => 403,
        AdmissionDecision::RejectOverload => 503,
    }
}

/// The small fixed message each rejection carries; no counts or
/// thresholds leak to the caller.
pub open spec fn spec_message(d: AdmissionDecision) -> Seq<char> {
    match d {
        AdmissionDecision::Allow { .. } => ""@,
        AdmissionDecision::RejectMalformedIdentity => "Invalid IP address"@,
        AdmissionDecision::RejectBlacklisted => "IP address blocked due to suspicious activity"@,
        AdmissionDecision::RejectScanDetected => "Too many unique requests - scanning detected"@,
        AdmissionDecision::RejectBurstDetected => "Request rate abnormal - automated tools detected"@,
        AdmissionDecision::RejectOverload => "Server is currently under high load. Please try again later."@,
    }
}

impl AdmissionDecision {
    /// The HTTP status code for this decision.
    pub fn status_code(&self) -> (r: u16)
        ensures
            r == spec_status_code(*self),
    {
        match self {
            AdmissionDecision::Allow { .. } => 200,
            AdmissionDecision::RejectMalformedIdentity => 400,
            AdmissionDecision::RejectBlacklisted => 403,
            AdmissionDecision::RejectScanDetected => 403,
            AdmissionDecision::RejectBurstDetected => 403,
            AdmissionDecision::RejectOverload => 503,
        }
    }

    /// The fixed response message for this decision.
    pub fn message(&self) -> (r: &'static str)
        ensures
            r@ == spec_message(*self),
    {
        match self {
            AdmissionDecision::Allow { .. } => "",
            AdmissionDecision::RejectMalformedIdentity => "Invalid IP address",
            AdmissionDecision::RejectBlacklisted => "IP address blocked due to suspicious activity",
            AdmissionDecision::RejectScanDetected => "Too many unique requests - scanning detected",
            AdmissionDecision::RejectBurstDetected => "Request rate abnormal - automated tools detected",
            AdmissionDecision::RejectOverload => "Server is currently under high load. Please try again later.",
        }
    }
}

/// A client is turned away as blacklisted exactly when its listing is
/// in force at the time of the request.
pub proof fn lemma_blocked_clients_are_denied(
    m: AdmissionModel,
    c: ClientIp,
    path: Seq<char>,
    now: u64,
)
    ensures
        admission_step(m, Some(c), path, now).1 == AdmissionDecision::RejectBlacklisted
            <==> spec_is_blocked(m.blacklist, c, now),
{
}

/// A request that trips the scan or burst signal blacklists the
/// client on the spot: the listing carries the request's own time,
/// so every check in the following `block_duration` is denied.
pub proof fn lemma_violation_blacklists_at_once(
    m: AdmissionModel,
    c: ClientIp,
    path: Seq<char>,
    now: u64,
)
    ensures
        ({
            let (m2, d) = admission_step(m, Some(c), path, now);
            (d == AdmissionDecision::RejectScanDetected || d
                == AdmissionDecision::RejectBurstDetected) ==> m2.blacklist.blocked.contains_pair(
                c,
                now,
            ) && forall|later: u64|
                now <= later < now + m2.blacklist.block_duration_ms ==> spec_is_blocked(
                    m2.blacklist,
                    c,
                    later,
                )
        }),
{
    let (m2, d) = admission_step(m, Some(c), path, now);
    if d == AdmissionDecision::RejectScanDetected || d == AdmissionDecision::RejectBurstDetected {
        assert forall|later: u64|
            now <= later < now + m2.blacklist.block_duration_ms implies spec_is_blocked(
            m2.blacklist,
            c,
            later,
        ) by {
            crate::blacklist::lemma_blacklist_window(m2.blacklist, c, now, later);
        }
    }
}

/// An error outcome that completes a failure streak blacklists the
/// client as of that moment.
pub proof fn lemma_streak_completion_blacklists(
    m: AdmissionModel,
    c: ClientIp,
    outcome: ResponseOutcome,
    now: u64,
)
    requires
        outcome != ResponseOutcome::Success,
        failure_step(m.detector, c).1,
    ensures
        outcome_step(m, c, outcome, now).blacklist.blocked.contains_pair(c, now),
{
}

/// Two maintenance ticks in a row with no intervening traffic come to
/// the same thing as one: the second observes already-pruned maps and
/// removes nothing further.
pub proof fn lemma_maintenance_idempotent(m: AdmissionModel, now: u64)
    ensures
        maintenance_step(maintenance_step(m, now), now) == maintenance_step(m, now),
{
    lemma_blacklist_cleanup_idempotent(m.blacklist, now);
    lemma_detector_cleanup_idempotent(m.detector, now);
}

} // verus!
