//! The webhook-side gifted-subscription event and its builder.
//!
//! Like the bits event, attribution is a one-element list and `None`
//! fields are skipped; a gift always carries a tier.

use vstd::prelude::*;

use crate::models_user::RecordId;
use crate::sub_tier::SubTier;

verus! {

/// A gifted-subscription event as sent to the record store.
#[derive(Debug, Clone)]
pub struct Subgift {
    pub id: usize,
    pub user_id: Option<Vec<RecordId>>,
    pub display_name: Option<Vec<String>>,
    pub number: usize,
    pub tier: SubTier,
    pub created_at: String,
}

impl Subgift {
    /// A gift event; its creation timestamp is stamped by the caller
    /// before it is sent.
    pub fn new(
        user_id: Option<Vec<RecordId>>,
        display_name: Option<Vec<String>>,
        number: usize,
        tier: SubTier,
    ) -> (r: Self)
        ensures
            r.id == 0 && r.user_id == user_id && r.display_name == display_name,
            r.number == number && r.tier == tier,
            r.created_at@ == Seq::<char>::empty(),
    {
        Subgift { id: 0, user_id, display_name, number, tier, created_at: String::new() }
    }

    /// A builder for an empty gift event at the lowest tier.
    pub fn builder() -> (r: SubgiftBuilder)
        ensures
            r.draft().id == 0 && r.draft().user_id is None && r.draft().display_name is None,
            r.draft().number == 0 && r.draft().tier == SubTier::Tier1,
            r.draft().created_at@ == Seq::<char>::empty(),
    {
        SubgiftBuilder { subgift: Subgift::new(None, None, 0, SubTier::Tier1) }
    }
}

/// Assembles a [`Subgift`] event field by field.
pub struct SubgiftBuilder {
    subgift: Subgift,
}

impl Default for SubgiftBuilder {
    /// A builder for an empty gift event at the lowest tier.
    fn default() -> (r: Self)
        ensures
            r.draft().id == 0 && r.draft().user_id is None && r.draft().display_name is None,
            r.draft().number == 0 && r.draft().tier == SubTier::Tier1,
            r.draft().created_at@ == Seq::<char>::empty(),
    {
        Subgift::builder()
    }
}

impl SubgiftBuilder {
    /// The event as built so far.
    pub closed spec fn draft(self) -> Subgift {
        self.subgift
    }

    /// Attribute the event to a user record, when one is known.
    pub fn user_id(self, user_id: Option<RecordId>) -> (r: Self)
        ensures
            match user_id {
                Some(id) => r.draft().user_id matches Some(v) && v@ == seq![id] && r.draft() == (
                Subgift { user_id: r.draft().user_id, ..self.draft() }),
                None => r.draft() == self.draft(),
            },
    {
        let mut subgift = self.subgift;
        if let Some(id) = user_id {
            let mut v: Vec<RecordId> = Vec::new();
            v.push(id);
            subgift.user_id = Some(v);
        }
        SubgiftBuilder { subgift }
    }

    /// Attach the giver's display name, when one is known.
    pub fn display_name(self, display_name: Option<String>) -> (r: Self)
        ensures
            match display_name {
                Some(name) => r.draft().display_name matches Some(v) && v@ == seq![name]
                    && r.draft() == (Subgift {
                    display_name: r.draft().display_name,
                    ..self.draft()
                }),
                None => r.draft() == self.draft(),
            },
    {
        let mut subgift = self.subgift;
        if let Some(name) = display_name {
            let mut v: Vec<String> = Vec::new();
            v.push(name);
            subgift.display_name = Some(v);
        }
        SubgiftBuilder { subgift }
    }

    /// Set the number of subscriptions gifted.
    pub fn number(self, number: usize) -> (r: Self)
        ensures
            r.draft() == (Subgift { number: number, ..self.draft() }),
    {
        let mut subgift = self.subgift;
        subgift.number = number;
        SubgiftBuilder { subgift }
    }

    /// Set the tier the gifts were given at.
    pub fn tier(self, tier: SubTier) -> (r: Self)
        ensures
            r.draft() == (Subgift { tier: tier, ..self.draft() }),
    {
        let mut subgift = self.subgift;
        subgift.tier = tier;
        SubgiftBuilder { subgift }
    }

    /// Finish the event.
    pub fn build(self) -> (r: Subgift)
        ensures
            r == self.draft(),
    {
        self.subgift
    }
}

} // verus!
