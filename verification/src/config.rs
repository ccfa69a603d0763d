//! Service configuration. The values are read from the environment by
//! the embedding program and handed in as plain values.

use vstd::prelude::*;

verus! {

/// Connection endpoints and push-gateway credentials.
#[derive(Debug, Clone)]
pub struct Config {
    pub database_url: String,
    pub bsky_service_url: String,
    pub bsky_api_url: String,
    pub apns_key_path: String,
    pub apns_key_id: String,
    pub apns_team_id: String,
    pub apns_topic: String,
    pub apns_production: bool,
}

} // verus!
