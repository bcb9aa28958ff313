//! The gifted-subscriptions row.
//!
//! A gift batch carries a positive count and a tier name;
//! [`Subgift::validate`] checks both, count first, reporting the first
//! rule broken.

use vstd::prelude::*;
use vstd::string::StringExecFns;

use crate::orm::OrmError;
use crate::tables_user::spec_valid_tier;

verus! {

/// A gifted-subscriptions row.
#[derive(Debug, Clone, PartialEq, Eq)]
pub struct Subgift {
    pub id: u64,
    pub user_id: Option<u64>,
    pub number: u16,
    pub tier: String,
    pub created_at: String,
}

/// The message of the first validation rule a gift batch breaks, if
/// any.
pub open spec fn spec_subgift_validation_error(g: Subgift) -> Option<Seq<char>> {
    if g.number == 0 {
        Some("Subgifts number cannot be 0"@)
    } else if !spec_valid_tier(g.tier@) {
        Some("Invalid sub tier name"@)
    } else {
        None
    }
}

impl Default for Subgift {
    /// An empty gift row.
    fn default() -> (r: Self)
        ensures
            r.id == 0 && r.user_id is None && r.number == 0,
            r.tier@ == Seq::<char>::empty() && r.created_at@ == Seq::<char>::empty(),
    {
        Subgift::new()
    }
}

impl Subgift {
    /// An empty gift row.
    pub fn new() -> (r: Self)
        ensures
            r.id == 0 && r.user_id is None && r.number == 0,
            r.tier@ == Seq::<char>::empty() && r.created_at@ == Seq::<char>::empty(),
    {
        Subgift { id: 0, user_id: None, number: 0, tier: String::new(), created_at: String::new() }
    }

    /// A gift batch attributed to the user `user_id`.
    pub fn from(user_id: u64, number: u16, tier: String) -> (r: Self)
        ensures
            r.id == 0 && r.user_id == Some(user_id) && r.number == number && r.tier == tier,
            r.created_at@ == Seq::<char>::empty(),
    {
        Subgift { id: 0, user_id: Some(user_id), number, tier, created_at: String::new() }
    }

    /// An anonymous gift batch.
    pub fn from_anonymous(number: u16, tier: String) -> (r: Self)
        ensures
            r.id == 0 && r.user_id is None && r.number == number && r.tier == tier,
            r.created_at@ == Seq::<char>::empty(),
    {
        Subgift { id: 0, user_id: None, number, tier, created_at: String::new() }
    }

    /// A gift batch is storable exactly when its count is positive and
    /// its tier name is known.
    pub fn validate(&self) -> (r: Result<(), OrmError>)
        ensures
            r is Ok <==> spec_subgift_validation_error(*self) is None,
            r matches Err(e) ==> e matches OrmError::BadInput(s) && Some(s@)
                == spec_subgift_validation_error(*self),
    {
        if self.number == 0 {
            return Err(OrmError::BadInput("Subgifts number cannot be 0".to_owned()));
        }
        if self.tier == "Tier1".to_owned() || self.tier == "Tier2".to_owned() || self.tier
            == "Tier3".to_owned() || self.tier == "Prime".to_owned() || self.tier
            == "Other".to_owned() {
            Ok(())
        } else {
            Err(OrmError::BadInput("Invalid sub tier name".to_owned()))
        }
    }
}

} // verus!
