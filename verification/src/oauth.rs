//! The authorization-callback query.

use vstd::prelude::*;

verus! {

/// What the authorization endpoint sends back: the code to exchange
/// for a token, and the state echo that ties the callback to the
/// request that started it.
#[derive(Debug, Clone)]
pub struct CallbackQuery {
    pub code: String,
    pub state: String,
}

} // verus!
