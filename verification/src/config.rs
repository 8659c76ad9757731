//! Settings of the proxy and of the object-store deployment.

use vstd::prelude::*;
use vstd::string::*;
use crate::text::{parse_decimal, decimal_u64};

verus! {

/// Where the object-store deployment keeps its objects.
#[derive(Debug, Clone)]
pub struct S3Config {
    pub bucket: String,
    pub prefix: String,
}

impl S3Config {
    pub fn bucket(&self) -> (r: String)
        ensures
            r@ == self.bucket@,
    {
        self.bucket.clone()
    }

    pub fn prefix(&self) -> (r: String)
        ensures
            r@ == self.prefix@,
    {
        self.prefix.clone()
    }
}

/// Settings of one proxy process.  Addresses are kept as text and durations
/// as milliseconds.
#[derive(Debug, Clone)]
pub struct AppConfig {
    /// The upstream that misses are fetched from and stores are replicated to.
    pub upstream: String,
    /// Further upstreams that stores are replicated to.
    pub secondary_upstreams: Vec<String>,
    pub proxy: Option<String>,
    pub bind_target: String,
    pub cache_folder: String,
    pub cache_folder_size: u64,
    pub maximum_download_size: u64,
    pub maximum_upload_size: u64,
    /// Idle time after which the process ends, in milliseconds.
    pub idle_time_terminate: Option<u64>,
}

impl AppConfig {
    pub fn upstream(&self) -> (r: String)
        ensures
            r@ == self.upstream@,
    {
        self.upstream.clone()
    }

    pub fn proxy(&self) -> (r: Option<String>)
        ensures
            r.is_some() == self.proxy.is_some(),
            r.is_some() ==> r.unwrap()@ == self.proxy.unwrap()@,
    {
        match &self.proxy {
            Some(p) => Some(p.clone()),
            None => None,
        }
    }

    /// Reads a duration written as a decimal number of milliseconds.
    pub fn str_to_ms(s: &str) -> (r: Option<u64>)
        ensures
            r == decimal_u64(s@),
    {
        parse_decimal(s)
    }
}

} // verus!
