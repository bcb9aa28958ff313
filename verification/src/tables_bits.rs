//! The bits-donation row.
//!
//! A donation carries a positive bit count, optionally attributed to
//! a user and accompanied by a message.  [`Bit::validate`] holds the
//! one rule a row must meet before storage: the count cannot be zero.

use vstd::prelude::*;
use vstd::string::StringExecFns;

use crate::orm::OrmError;

verus! {

/// A bits-donation row.
#[derive(Debug, Clone, PartialEq, Eq)]
pub struct Bit {
    pub id: u64,
    pub user_id: Option<u64>,
    pub number: u32,
    pub message: Option<String>,
    pub created_at: String,
}

impl Default for Bit {
    /// An empty donation row.
    fn default() -> (r: Self)
        ensures
            r.id == 0 && r.user_id is None && r.number == 0 && r.message is None,
            r.created_at@ == Seq::<char>::empty(),
    {
        Bit::new()
    }
}

impl Bit {
    /// An empty donation row.
    pub fn new() -> (r: Self)
        ensures
            r.id == 0 && r.user_id is None && r.number == 0 && r.message is None,
            r.created_at@ == Seq::<char>::empty(),
    {
        Bit { id: 0, user_id: None, number: 0, message: None, created_at: String::new() }
    }

    /// A donation attributed to the user `user_id`.
    pub fn from(user_id: u64, number: u32, message: Option<String>) -> (r: Self)
        ensures
            r.id == 0 && r.user_id == Some(user_id) && r.number == number && r.message == message,
            r.created_at@ == Seq::<char>::empty(),
    {
        Bit { id: 0, user_id: Some(user_id), number, message, created_at: String::new() }
    }

    /// An anonymous donation.
    pub fn from_anonymous(number: u32, message: Option<String>) -> (r: Self)
        ensures
            r.id == 0 && r.user_id is None && r.number == number && r.message == message,
            r.created_at@ == Seq::<char>::empty(),
    {
        Bit { id: 0, user_id: None, number, message, created_at: String::new() }
    }

    /// A donation is storable exactly when its count is positive.
    pub fn validate(&self) -> (r: Result<(), OrmError>)
        ensures
            r is Ok <==> self.number != 0,
            r matches Err(e) ==> e matches OrmError::BadInput(s) && s@
                == "Bits number cannot be 0"@,
    {
        if self.number == 0 {
            Err(OrmError::BadInput("Bits number cannot be 0".to_owned()))
        } else {
            Ok(())
        }
    }
}

} // verus!
