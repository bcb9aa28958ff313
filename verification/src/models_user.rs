//! The notification-side user model and its builder.
//!
//! This shape mirrors what the outward-facing record store keeps for a
//! user: display name, platform id, and the optional follow,
//! subscription, gift and bits details, each attached by one builder
//! step.

use vstd::prelude::*;

use crate::sub_tier::SubTier;

verus! {

/// A record identifier in the outward-facing store.
pub type RecordId = String;

/// A user as the outward-facing record store keeps it.
#[derive(Debug, Clone)]
pub struct User {
    pub id: usize,
    pub display_name: String,
    pub twitch_id: String,
    pub created_at: String,
    pub follower_since: Option<String>,
    pub subscriber_since: Option<String>,
    pub subscription_tier: Option<SubTier>,
    pub subgift_total: Option<usize>,
    pub subgifts: Option<Vec<RecordId>>,
    pub bits: Option<Vec<RecordId>>,
}

impl User {
    /// A builder for an empty user.
    pub fn builder() -> (r: UserBuilder)
        ensures
            r.draft().id == 0,
            r.draft().display_name@ == Seq::<char>::empty(),
            r.draft().twitch_id@ == Seq::<char>::empty(),
            r.draft().created_at@ == Seq::<char>::empty(),
            r.draft().follower_since is None && r.draft().subscriber_since is None,
            r.draft().subscription_tier is None && r.draft().subgift_total is None,
            r.draft().subgifts is None && r.draft().bits is None,
    {
        UserBuilder::empty()
    }
}

/// Assembles a [`User`] field by field.
pub struct UserBuilder {
    user: User,
}

impl UserBuilder {
    /// The user as built so far.
    pub closed spec fn draft(self) -> User {
        self.user
    }

    fn empty() -> (r: Self)
        ensures
            r.draft().id == 0,
            r.draft().display_name@ == Seq::<char>::empty(),
            r.draft().twitch_id@ == Seq::<char>::empty(),
            r.draft().created_at@ == Seq::<char>::empty(),
            r.draft().follower_since is None && r.draft().subscriber_since is None,
            r.draft().subscription_tier is None && r.draft().subgift_total is None,
            r.draft().subgifts is None && r.draft().bits is None,
    {
        UserBuilder {
            user: User {
                id: 0,
                display_name: String::new(),
                twitch_id: String::new(),
                created_at: String::new(),
                follower_since: None,
                subscriber_since: None,
                subscription_tier: None,
                subgift_total: None,
                subgifts: None,
                bits: None,
            },
        }
    }

    /// Set the display name.
    pub fn display_name(self, name: String) -> (r: Self)
        ensures
            r.draft() == (User { display_name: name, ..self.draft() }),
    {
        let mut user = self.user;
        user.display_name = name;
        UserBuilder { user }
    }

    /// Set the platform id.
    pub fn twitch_id(self, id: String) -> (r: Self)
        ensures
            r.draft() == (User { twitch_id: id, ..self.draft() }),
    {
        let mut user = self.user;
        user.twitch_id = id;
        UserBuilder { user }
    }

    /// Set the subscription tier.
    pub fn subscription_tier(self, tier: SubTier) -> (r: Self)
        ensures
            r.draft() == (User { subscription_tier: Some(tier), ..self.draft() }),
    {
        let mut user = self.user;
        user.subscription_tier = Some(tier);
        UserBuilder { user }
    }

    /// Set the gift total.
    pub fn subgift_total(self, total: usize) -> (r: Self)
        ensures
            r.draft() == (User { subgift_total: Some(total), ..self.draft() }),
    {
        let mut user = self.user;
        user.subgift_total = Some(total);
        UserBuilder { user }
    }

    /// Attach gift records, extending any already attached.
    pub fn subgifts(self, subgifts: Vec<RecordId>) -> (r: Self)
        ensures
            r.draft().subgifts matches Some(v) && v@ == (match self.draft().subgifts {
                Some(cur) => cur@,
                None => Seq::empty(),
            }) + subgifts@,
            r.draft() == (User { subgifts: r.draft().subgifts, ..self.draft() }),
    {
        let mut user = self.user;
        let mut incoming = subgifts;
        match &mut user.subgifts {
            Some(cur) => {
                cur.append(&mut incoming);
            },
            None => {
                proof {
                    assert(incoming@ =~= Seq::<RecordId>::empty() + incoming@);
                }
                user.subgifts = Some(incoming);
            },
        }
        UserBuilder { user }
    }

    /// Attach bits records, extending any already attached.
    pub fn bits(self, bits: Vec<RecordId>) -> (r: Self)
        ensures
            r.draft().bits matches Some(v) && v@ == (match self.draft().bits {
                Some(cur) => cur@,
                None => Seq::empty(),
            }) + bits@,
            r.draft() == (User { bits: r.draft().bits, ..self.draft() }),
    {
        let mut user = self.user;
        let mut incoming = bits;
        match &mut user.bits {
            Some(cur) => {
                cur.append(&mut incoming);
            },
            None => {
                proof {
                    assert(incoming@ =~= Seq::<RecordId>::empty() + incoming@);
                }
                user.bits = Some(incoming);
            },
        }
        UserBuilder { user }
    }

    /// Finish the user.
    pub fn build(self) -> (r: User)
        ensures
            r == self.draft(),
    {
        self.user
    }
}

} // verus!
