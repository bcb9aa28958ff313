//! Subscription tiers.
//!
//! The five tier names the system recognises, with their canonical
//! spelling.

use vstd::prelude::*;

verus! {

/// A subscription tier.
#[derive(Debug, Clone, Copy, PartialEq, Eq, Structural)]
pub enum SubTier {
    Tier1,
    Tier2,
    Tier3,
    Prime,
    Other,
}

/// The canonical name of each tier.
pub open spec fn spec_tier_name(t: SubTier) -> Seq<char> {
    match t {
        SubTier::Tier1 => "Tier1"@,
        SubTier::Tier2 => "Tier2"@,
        SubTier::Tier3 => "Tier3"@,
        SubTier::Prime => "Prime"@,
        SubTier::Other => "Other"@,
    }
}

impl SubTier {
    /// The tier's canonical name.
    pub fn name(&self) -> (r: &'static str)
        ensures
            r@ == spec_tier_name(*self),
    {
        match self {
            SubTier::Tier1 => "Tier1",
            SubTier::Tier2 => "Tier2",
            SubTier::Tier3 => "Tier3",
            SubTier::Prime => "Prime",
            SubTier::Other => "Other",
        }
    }
}

} // verus!
