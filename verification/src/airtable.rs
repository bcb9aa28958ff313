//! The record store's table names.

use vstd::prelude::*;
use vstd::string::StringExecFns;

verus! {

/// A table of the record store.
#[derive(Debug, Clone, Copy, PartialEq, Eq, Structural)]
pub enum Base {
    Users,
    Subgifts,
}

/// The name of each table.
pub open spec fn spec_base_name(b: Base) -> Seq<char> {
    match b {
        Base::Users => "users"@,
        Base::Subgifts => "subgifts"@,
    }
}

impl Base {
    /// The table's name.
    pub fn name(&self) -> (r: &'static str)
        ensures
            r@ == spec_base_name(*self),
    {
        match self {
            Base::Users => "users",
            Base::Subgifts => "subgifts",
        }
    }
}

impl core::str::FromStr for Base {
    type Err = String;

    fn from_str(s: &str) -> Result<Self, String> {
        let key = s.to_owned();
        if key == "users".to_owned() {
            Ok(Base::Users)
        } else if key == "subgifts".to_owned() {
            Ok(Base::Subgifts)
        } else {
            Err("Invalid base: ".to_owned().concat(s))
        }
    }
}

} // verus!
