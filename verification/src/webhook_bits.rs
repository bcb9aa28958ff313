//! The webhook-side bits event and its builder.
//!
//! The record store represents attribution as one-element lists; the
//! builder wraps a single id or name accordingly, and skips fields
//! offered as `None`.

use vstd::prelude::*;

use crate::models_user::RecordId;

verus! {

/// A bits event as sent to the record store.
#[derive(Debug, Clone)]
pub struct Bits {
    pub id: usize,
    pub user_id: Option<Vec<RecordId>>,
    pub display_name: Option<Vec<String>>,
    pub number: usize,
    pub message: Option<String>,
}

impl Default for Bits {
    /// An empty bits event.
    fn default() -> (r: Self)
        ensures
            r.id == 0 && r.user_id is None && r.display_name is None,
            r.number == 0 && r.message is None,
    {
        Bits { id: 0, user_id: None, display_name: None, number: 0, message: None }
    }
}

impl Bits {
    /// A builder for an empty bits event.
    pub fn builder() -> (r: BitsBuilder)
        ensures
            r.draft().id == 0 && r.draft().user_id is None && r.draft().display_name is None,
            r.draft().number == 0 && r.draft().message is None,
    {
        BitsBuilder { bits: Bits { id: 0, user_id: None, display_name: None, number: 0, message: None } }
    }
}

/// Assembles a [`Bits`] event field by field.
pub struct BitsBuilder {
    bits: Bits,
}

impl Default for BitsBuilder {
    /// A builder for an empty bits event.
    fn default() -> (r: Self)
        ensures
            r.draft().id == 0 && r.draft().user_id is None && r.draft().display_name is None,
            r.draft().number == 0 && r.draft().message is None,
    {
        Bits::builder()
    }
}

impl BitsBuilder {
    /// The event as built so far.
    pub closed spec fn draft(self) -> Bits {
        self.bits
    }

    /// Attribute the event to a user record, when one is known.
    pub fn user_id(self, user_id: Option<RecordId>) -> (r: Self)
        ensures
            match user_id {
                Some(id) => r.draft().user_id matches Some(v) && v@ == seq![id] && r.draft() == (
                Bits { user_id: r.draft().user_id, ..self.draft() }),
                None => r.draft() == self.draft(),
            },
    {
        let mut bits = self.bits;
        if let Some(id) = user_id {
            let mut v: Vec<RecordId> = Vec::new();
            v.push(id);
            bits.user_id = Some(v);
        }
        BitsBuilder { bits }
    }

    /// Attach the giver's display name, when one is known.
    pub fn display_name(self, display_name: Option<String>) -> (r: Self)
        ensures
            match display_name {
                Some(name) => r.draft().display_name matches Some(v) && v@ == seq![name]
                    && r.draft() == (Bits { display_name: r.draft().display_name, ..self.draft() }),
                None => r.draft() == self.draft(),
            },
    {
        let mut bits = self.bits;
        if let Some(name) = display_name {
            let mut v: Vec<String> = Vec::new();
            v.push(name);
            bits.display_name = Some(v);
        }
        BitsBuilder { bits }
    }

    /// Set the number of bits given.
    pub fn number(self, number: usize) -> (r: Self)
        ensures
            r.draft() == (Bits { number: number, ..self.draft() }),
    {
        let mut bits = self.bits;
        bits.number = number;
        BitsBuilder { bits }
    }

    /// Attach the giver's message, when one was sent.
    pub fn message(self, message: Option<String>) -> (r: Self)
        ensures
            match message {
                Some(m) => r.draft() == (Bits { message: Some(m), ..self.draft() }),
                None => r.draft() == self.draft(),
            },
    {
        let mut bits = self.bits;
        if let Some(m) = message {
            bits.message = Some(m);
        }
        BitsBuilder { bits }
    }

    /// Finish the event.
    pub fn build(self) -> (r: Bits)
        ensures
            r == self.draft(),
    {
        self.bits
    }
}

} // verus!
