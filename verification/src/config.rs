//! The immutable snapshot of tunables that every handler consults.

use vstd::prelude::*;

verus! {

/// Tunables fixed at startup. The engine never mutates a `Config`; callers
/// load one (or take the defaults) and pass it by reference.
pub struct Config {
    /// host:port the transport listens on; the engine itself never reads it.
    pub bind: String,
    /// Expiration window of a transfer, in the same time unit as the `now`
    /// arguments handed to the registry operations (seconds).
    pub timeout_secs: u64,
    /// Period of the expiration sweep, in seconds.
    pub timeout_scan_interval_secs: u64,
    /// Delay between download retry attempts, in milliseconds.
    pub download_retry_ms: u64,
    /// Number of retries after the first download attempt before giving up.
    pub download_max_retries: u64,
    /// Length of a generated identifier and of a generated secret.
    pub token_length: usize,
    /// Upper bound on the declared content length of a transfer.
    pub max_content_length: u64,
}

impl Default for Config {
    /// The defaults that apply when no configuration is given.
    fn default() -> (c: Config)
        ensures
            c.bind@ == "127.0.0.1:3000"@,
            c.timeout_secs == 3600,
            c.timeout_scan_interval_secs == 60,
            c.download_retry_ms == 200,
            c.download_max_retries == 9,
            c.token_length == 10,
            c.max_content_length == 1048576,
    {
        Config {
            bind: "127.0.0.1:3000".to_owned(),
            timeout_secs: 3600,
            timeout_scan_interval_secs: 60,
            download_retry_ms: 200,
            download_max_retries: 9,
            token_length: 10,
            max_content_length: 1048576,
        }
    }
}

} // verus!
