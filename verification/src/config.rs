//! What the service is configured with: the webhook, which must be given,
//! and the address to listen on, which has a default.

use vstd::prelude::*;

verus! {

/// The environment variable that holds the URL of the webhook.
pub const WEBHOOK_VARIABLE: &'static str = "DISCORD_WEBHOOK";

/// The environment variable that holds the address to listen on.
pub const LISTEN_ADDRESS_VARIABLE: &'static str = "LISTEN_ADDRESS";

pub const DEFAULT_LISTEN_ADDRESS: &'static str = "127.0.0.1:9094";

/// The address to listen on: the configured one, or the default.
pub fn listen_address(configured: Option<String>) -> (address: String)
    ensures
        address@ == (match configured {
            Some(given) => given@,
            None => DEFAULT_LISTEN_ADDRESS@,
        }),
{
    match configured {
        Some(given) => given,
        None => String::from_str(DEFAULT_LISTEN_ADDRESS),
    }
}

/// The URL of the webhook, or nothing where none is configured or the
/// configured one is empty: the service cannot start without it.
pub fn webhook_url(configured: Option<String>) -> (url: Option<String>)
    ensures
        url == (match configured {
            Some(given) if given@.len() > 0 => Some(given),
            _ => None,
        }),
{
    match configured {
        Some(given) => {
            if given.as_str().is_empty() {
                None
            } else {
                Some(given)
            }
        },
        None => None,
    }
}

} // verus!
