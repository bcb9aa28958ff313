//! The "latest event" read models.
//!
//! Each struct is the shape of one most-recent-event lookup: the
//! newest follower, subscriber, gift batch and bits donation.  The
//! queries that fill them run elsewhere; these are the plain rows they
//! produce.

use vstd::prelude::*;

verus! {

/// Namespace for the most-recent-event lookups.
pub struct Latests;

/// The newest follower.
#[derive(Debug, Clone)]
pub struct LatestFollower {
    pub name: String,
}

/// The newest subscriber and their tier.
#[derive(Debug, Clone)]
pub struct LatestSubscriber {
    pub name: String,
    pub tier: String,
}

/// The newest gift batch: who gave, at which tier, how many.
#[derive(Debug, Clone)]
pub struct LatestSubgift {
    pub name: String,
    pub tier: String,
    pub number: u16,
}

/// The newest bits donation: who gave, how many, with which message.
#[derive(Debug, Clone)]
pub struct LatestBit {
    pub name: String,
    pub number: u16,
    pub message: Option<String>,
}

} // verus!
