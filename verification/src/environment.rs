//! Configuration values and credentials.
//!
//! A [`Secret`] wraps a credential so that handing it around never
//! exposes it by accident; the raw value is reachable only through
//! the explicit accessors.  [`Environment`] gathers everything the
//! service is configured with; reading it from the process
//! environment is the embedding program's job.

use vstd::prelude::*;
use vstd::utf8::encode_utf8;

verus! {

/// A credential.
#[derive(Clone)]
pub struct Secret(String);

impl View for Secret {
    type V = Seq<char>;

    closed spec fn view(&self) -> Seq<char> {
        self.0@
    }
}

impl Secret {
    /// Wrap a credential value.
    pub fn new(value: String) -> (r: Self)
        ensures
            r@ == value@,
    {
        Secret(value)
    }

    /// The credential's bytes.
    pub fn secret(&self) -> (r: &[u8])
        ensures
            r@ == encode_utf8(self@),
    {
        self.0.as_str().as_bytes()
    }

    /// The credential's text.
    pub fn secret_str(&self) -> (r: &str)
        ensures
            r@ == self@,
    {
        self.0.as_str()
    }
}

/// Everything the service is configured with.
#[derive(Clone)]
pub struct Environment {
    pub event_sub_secret: Secret,
    pub twitch_client_id: String,
    pub twitch_client_secret: Secret,
    pub twitch_broadcaster_id: String,
    pub twitch_moderator_id: String,
    pub twitch_eventsub_callback_url: String,
    pub twitch_user_oauth_callback_url: String,
    pub discord_webhook_url: Secret,
    pub airtable_base_id: String,
    pub airtable_api_token: Secret,
    pub dev_mode: bool,
}

} // verus!
