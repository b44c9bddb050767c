//! The configuration of the engine, with its defaults.

use crate::scheduler::DEFAULT_INTERVAL_SECONDS;
use vstd::prelude::*;

verus! {

/// Where the remote collection is fetched from, where the store is kept, and
/// how often the timer fires.
pub struct SyncConfig {
    pub endpoint_url: String,
    pub store_path: String,
    pub interval_seconds: u64,
}

/// The endpoint where none is configured.
pub open spec fn default_endpoint() -> Seq<char> {
    "http://localhost:5000/getdata"@
}

/// The path of the store where none is configured.
pub open spec fn default_store_path() -> Seq<char> {
    "local_data.db"@
}

/// The text that is configured, or the default.
pub open spec fn text_or(configured: Option<String>, default: Seq<char>) -> Seq<char> {
    match configured {
        Some(text) => text@,
        None => default,
    }
}

impl SyncConfig {
    /// The configuration that the given settings make, each one that is
    /// missing replaced by its default.
    pub fn resolve(
        endpoint_url: Option<String>,
        store_path: Option<String>,
        interval_seconds: Option<u64>,
    ) -> (r: SyncConfig)
        ensures
            r.endpoint_url@ == text_or(endpoint_url, default_endpoint()),
            r.store_path@ == text_or(store_path, default_store_path()),
            r.interval_seconds == match interval_seconds {
                Some(seconds) => seconds,
                None => DEFAULT_INTERVAL_SECONDS,
            },
    {
        SyncConfig {
            endpoint_url: match endpoint_url {
                Some(text) => text,
                None => "http://localhost:5000/getdata".to_owned(),
            },
            store_path: match store_path {
                Some(text) => text,
                None => "local_data.db".to_owned(),
            },
            interval_seconds: match interval_seconds {
                Some(seconds) => seconds,
                None => DEFAULT_INTERVAL_SECONDS,
            },
        }
    }
}

} // verus!
