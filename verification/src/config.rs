//! Process-wide configuration, immutable after startup. The values
//! come from the environment (an outside concern); this module only
//! fixes what they mean, in particular the one documented default:
//! port 3000 when none is given.

use vstd::prelude::*;

verus! {

pub const DEFAULT_PORT: u16 = 3000;

/// The settings the process runs with.
pub struct AppConfig {
    pub app_port: u16,
    pub db_url: String,
    pub api_key: Option<String>,
}

impl AppConfig {
    /// Builds the configuration from what the environment provided:
    /// a missing port falls back to the default, everything else is
    /// taken as given.
    pub fn from_parts(port: Option<u16>, db_url: String, api_key: Option<String>) -> (r:
        AppConfig)
        ensures
            r.app_port == match port {
                Some(p) => p,
                None => DEFAULT_PORT,
            },
            r.db_url == db_url,
            r.api_key == api_key,
    {
        let app_port = match port {
            Some(p) => p,
            None => DEFAULT_PORT,
        };
        AppConfig { app_port, db_url, api_key }
    }
}

} // verus!
