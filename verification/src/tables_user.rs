//! The user row and its validation rules.
//!
//! A user's subscription data is consistent only in pairs: a
//! subscription start date requires a tier and a tier requires a start
//! date, and a tier must be one of the five known names.
//! [`User::validate`] enforces exactly that; the builder completes a
//! half-specified pair instead of rejecting it.

use vstd::prelude::*;
use vstd::string::StringExecFns;

use crate::orm::OrmError;

verus! {

/// Whether `t` is one of the five known subscription tier names.
pub open spec fn spec_valid_tier(t: Seq<char>) -> bool {
    ||| t == "Tier1"@
    ||| t == "Tier2"@
    ||| t == "Tier3"@
    ||| t == "Prime"@
    ||| t == "Other"@
}

/// A user row.
#[derive(Debug, Clone, PartialEq, Eq)]
pub struct User {
    pub id: u64,
    pub display_name: String,
    pub twitch_id: u64,
    pub follower_since: Option<String>,
    pub subscriber_since: Option<String>,
    pub subgift_total: Option<usize>,
    pub subscription_tier: Option<String>,
    pub created_at: String,
    pub updated_at: String,
    pub deleted_at: Option<String>,
}

/// The message of the first validation rule a user breaks, if any.
pub open spec fn spec_user_validation_error(u: User) -> Option<Seq<char>> {
    if (match u.subscription_tier {
        Some(t) => !spec_valid_tier(t@),
        None => false,
    }) {
        Some("Invalid sub tier name"@)
    } else if u.subscriber_since is Some && u.subscription_tier is None {
        Some("subscriber_since requires subscriber_tier to be set"@)
    } else if u.subscription_tier is Some && u.subscriber_since is None {
        Some("subscriber_tier requires subscriber_since to be set"@)
    } else {
        None
    }
}

/// Builds a [`User`] while completing half-specified subscriptions.
#[derive(Debug, Clone)]
pub struct UserBuilder(pub User);

impl UserBuilder {
    /// Record when the user started following.
    pub fn follow(self, date: String) -> (r: Self)
        ensures
            r.0 == (User { follower_since: Some(date), ..self.0 }),
    {
        let mut u = self.0;
        u.follower_since = Some(date);
        UserBuilder(u)
    }

    /// Record when the user subscribed.
    pub fn subscribe(self, date: String) -> (r: Self)
        ensures
            r.0 == (User { subscriber_since: Some(date), ..self.0 }),
    {
        let mut u = self.0;
        u.subscriber_since = Some(date);
        UserBuilder(u)
    }

    /// Record the subscription tier.
    pub fn tier(self, tier: String) -> (r: Self)
        ensures
            r.0 == (User { subscription_tier: Some(tier), ..self.0 }),
    {
        let mut u = self.0;
        u.subscription_tier = Some(tier);
        UserBuilder(u)
    }

    /// Record the creation date.
    pub fn created_at(self, created_at: String) -> (r: Self)
        ensures
            r.0 == (User { created_at: created_at, ..self.0 }),
    {
        let mut u = self.0;
        u.created_at = created_at;
        UserBuilder(u)
    }

    /// Finish the user.  A subscription date without a tier defaults
    /// the tier; a tier without a date takes `now_utc`, the current
    /// UTC timestamp supplied by the caller.
    pub fn build(self, now_utc: String) -> (r: User)
        ensures
            r.id == self.0.id && r.display_name == self.0.display_name && r.twitch_id
                == self.0.twitch_id && r.follower_since == self.0.follower_since
                && r.subgift_total == self.0.subgift_total && r.created_at == self.0.created_at
                && r.updated_at == self.0.updated_at && r.deleted_at == self.0.deleted_at,
            self.0.subscriber_since is Some && self.0.subscription_tier is None ==> (
            r.subscription_tier matches Some(t) && t@ == "Tier1"@) && r.subscriber_since
                == self.0.subscriber_since,
            self.0.subscription_tier is Some && self.0.subscriber_since is None ==> (
            r.subscriber_since == Some(now_utc)) && r.subscription_tier
                == self.0.subscription_tier,
            !(self.0.subscriber_since is Some && self.0.subscription_tier is None) && !(
            self.0.subscription_tier is Some && self.0.subscriber_since is None) ==> r == self.0,
    {
        let mut u = self.0;
        if u.subscriber_since.is_some() && u.subscription_tier.is_none() {
            u.subscription_tier = Some("Tier1".to_owned());
        }
        if u.subscription_tier.is_some() && u.subscriber_since.is_none() {
            u.subscriber_since = Some(now_utc);
        }
        u
    }
}

impl Default for User {
    /// An all-empty user row.
    fn default() -> (r: Self)
        ensures
            r.id == 0 && r.twitch_id == 0,
            r.display_name@ == Seq::<char>::empty(),
            r.follower_since is None && r.subscriber_since is None,
            r.subscription_tier is None && r.subgift_total is None,
            r.created_at@ == Seq::<char>::empty() && r.updated_at@ == Seq::<char>::empty(),
            r.deleted_at is None,
    {
        User::new()
    }
}

impl User {
    /// An all-empty user row.
    pub fn new() -> (r: Self)
        ensures
            r.id == 0 && r.twitch_id == 0,
            r.display_name@ == Seq::<char>::empty(),
            r.follower_since is None && r.subscriber_since is None,
            r.subscription_tier is None && r.subgift_total is None,
            r.created_at@ == Seq::<char>::empty() && r.updated_at@ == Seq::<char>::empty(),
            r.deleted_at is None,
    {
        User {
            id: 0,
            display_name: String::new(),
            twitch_id: 0,
            follower_since: None,
            subscriber_since: None,
            subscription_tier: None,
            subgift_total: None,
            created_at: String::new(),
            updated_at: String::new(),
            deleted_at: None,
        }
    }

    /// A fresh user row carrying a name and platform id.
    pub fn from(display_name: String, twitch_id: u64) -> (r: Self)
        ensures
            r.display_name == display_name && r.twitch_id == twitch_id,
            r.id == 0,
            r.follower_since is None && r.subscriber_since is None,
            r.subscription_tier is None && r.subgift_total is None,
            r.created_at@ == Seq::<char>::empty() && r.updated_at@ == Seq::<char>::empty(),
            r.deleted_at is None,
    {
        User {
            id: 0,
            display_name,
            twitch_id,
            follower_since: None,
            subscriber_since: None,
            subscription_tier: None,
            subgift_total: None,
            created_at: String::new(),
            updated_at: String::new(),
            deleted_at: None,
        }
    }

    /// A builder seeded with a name and platform id.
    pub fn builder(display_name: String, twitch_id: u64) -> (r: UserBuilder)
        ensures
            r.0.display_name == display_name && r.0.twitch_id == twitch_id,
            r.0.id == 0,
            r.0.follower_since is None && r.0.subscriber_since is None,
            r.0.subscription_tier is None && r.0.subgift_total is None,
            r.0.created_at@ == Seq::<char>::empty() && r.0.updated_at@ == Seq::<char>::empty(),
            r.0.deleted_at is None,
    {
        UserBuilder(User::from(display_name, twitch_id))
    }

    /// Accept exactly the five known tier names.
    pub fn validate_tier(tier: String) -> (r: Result<(), OrmError>)
        ensures
            r is Ok <==> spec_valid_tier(tier@),
            r matches Err(e) ==> e matches OrmError::BadInput(s) && s@ == "Invalid sub tier name"@,
    {
        if tier == "Tier1".to_owned() || tier == "Tier2".to_owned() || tier == "Tier3".to_owned()
            || tier == "Prime".to_owned() || tier == "Other".to_owned() {
            Ok(())
        } else {
            Err(OrmError::BadInput("Invalid sub tier name".to_owned()))
        }
    }

    /// Check the subscription consistency rules, reporting the first
    /// rule broken: a known tier name, a date for every tier, a tier
    /// for every date.
    pub fn validate(&self) -> (r: Result<(), OrmError>)
        ensures
            r is Ok <==> spec_user_validation_error(*self) is None,
            r matches Err(e) ==> e matches OrmError::BadInput(s) && Some(s@)
                == spec_user_validation_error(*self),
    {
        if self.subscription_tier.is_some() {
            let tier = match &self.subscription_tier {
                Some(t) => t.clone(),
                None => String::new(),
            };
            match User::validate_tier(tier) {
                Ok(()) => {},
                Err(e) => {
                    return Err(e);
                },
            }
        }
        if self.subscriber_since.is_some() && self.subscription_tier.is_none() {
            return Err(
                OrmError::BadInput("subscriber_since requires subscriber_tier to be set".to_owned()),
            );
        }
        if self.subscription_tier.is_some() && self.subscriber_since.is_none() {
            return Err(
                OrmError::BadInput("subscriber_tier requires subscriber_since to be set".to_owned()),
            );
        }
        Ok(())
    }
}

} // verus!
