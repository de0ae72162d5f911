//! Server settings.
use vstd::prelude::*;
use vstd::string::*;
use crate::text::{decimal, push_decimal};

verus! {

/// The server's settings.
#[derive(Clone, Debug)]
pub struct Config {
    /// Server host address
    pub host: String,
    /// Server port number
    pub port: u16,
    /// Number of worker threads
    pub workers: usize,
    /// HTTP request timeout in seconds
    pub http_timeout: u64,
    /// Version check interval in seconds
    pub version_check_interval: u64,
    /// Cache directory for version information
    pub cache_dir: Option<String>,
}

impl Default for Config {
    /// Serves on 127.0.0.1:8080 with four workers, a three-second request
    /// timeout, a half-hour check interval and the cache in `./`.
    fn default() -> (r: Config)
        ensures
            r.host@ == "127.0.0.1"@,
            r.port == 8080,
            r.workers == 4,
            r.http_timeout == 3,
            r.version_check_interval == 1800,
            r.cache_dir matches Some(d) && d@ == "./"@,
    {
        Config {
            host: String::from_str("127.0.0.1"),
            port: 8080,
            workers: 4,
            http_timeout: 3,
            version_check_interval: 1800,
            cache_dir: Some(String::from_str("./")),
        }
    }
}

impl Config {
    /// The address to bind: `host:port`.
    pub fn server_addr(&self) -> (r: String)
        ensures
            r@ == self.host@ + ":"@ + decimal(self.port as nat),
    {
        let mut r = String::from_str(self.host.as_str());
        r.append(":");
        push_decimal(&mut r, self.port as u64);
        r
    }
}

} // verus!
