//! Fetch-or-serve for GET and persist-then-register for PUT.
//!
//! The program moves the bytes.  The downloader decides whether a response
//! is downloaded at all, what follows an attempt, and what the cache index
//! holds afterwards.

use vstd::prelude::*;
use vstd::string::*;
use crate::cache::{
    after_insert, after_lookup, evicted_by, keys_of, size_of, CacheIndex, Item,
};
use crate::client::{NextStep, Retry};
use crate::config::AppConfig;
use crate::text::{decimal_u64, parse_decimal, views};

verus! {

/// The size that a `Content-Length` header declares, where the header is
/// there and is a decimal numeral.
pub open spec fn declared_length(header: Option<Seq<char>>) -> Option<u64> {
    match header {
        Some(text) => decimal_u64(text),
        None => None,
    }
}

/// Whether a response is downloaded: its status is 200 and it declares a
/// length of at most `maximum_download_size` bytes.
pub open spec fn should_download(
    status: u16,
    content_length: Option<u64>,
    maximum_download_size: u64,
) -> bool {
    status == 200 && content_length.is_some() && content_length.unwrap() <= maximum_download_size
}

/// The size that the header text `header` declares.
pub fn get_content_length(header: Option<&str>) -> (r: Option<u64>)
    ensures
        r == declared_length(
            match header {
                Some(t) => Some(t@),
                None => None,
            },
        ),
{
    match header {
        Some(text) => parse_decimal(text),
        None => None,
    }
}

/// What to do with a response.
#[derive(Clone, Copy, Debug, PartialEq, Eq, Structural)]
pub enum Download {
    /// Read no byte of the body and report a miss.
    Skip,
    /// Stream the body, which declares `content_length` bytes, to a fresh file.
    Stream { content_length: u64 },
}

/// What to do with a response of status `status` that declares
/// `content_length`: one that is too large, declares no length or is no
/// success is skipped before any byte is read.
pub fn response_decision(status: u16, content_length: Option<u64>, maximum_download_size: u64) -> (r:
    Download)
    ensures
        r == if should_download(status, content_length, maximum_download_size) {
            Download::Stream { content_length: content_length.unwrap() }
        } else {
            Download::Skip
        },
{
    match content_length {
        Some(n) => {
            if status == 200 && n <= maximum_download_size {
                Download::Stream { content_length: n }
            } else {
                Download::Skip
            }
        },
        None => Download::Skip,
    }
}

/// How one attempt to fetch ended.
#[derive(Debug)]
pub enum Attempt {
    /// The response was skipped.
    Miss,
    /// The body of `size` bytes lies in the file `path`.
    Fetched { size: u64, path: String },
    /// The request or the stream failed; a partial file was discarded.
    Failed { error: String },
}

/// What follows an attempt to fetch.
#[derive(Debug)]
pub enum FetchStep {
    /// Nothing was downloaded: report a miss.
    Miss,
    /// Register the file `path` of `size` bytes with the cache.
    Register { size: u64, path: String },
    /// Report the failure.
    Fail { error: String },
    /// Wait `sleep_ms` milliseconds, then try again with the budget `next`.
    RetryAfter { sleep_ms: u64, next: Retry },
}

/// What follows an attempt made with the budget `retry`: a miss and a
/// download end the fetch, a failure is retried while a try is left.
pub fn internal_fetch_file_with_retries(retry: &Retry, attempt: Attempt) -> (r: FetchStep)
    requires
        attempt is Failed && retry.tries > 0 ==> retry.sleep_ms * retry.multiplier <= u64::MAX,
    ensures
        match attempt {
            Attempt::Miss => r is Miss,
            Attempt::Fetched { size, path } => r == (FetchStep::Register { size, path }),
            Attempt::Failed { error } => if retry.tries > 0 {
                r == (FetchStep::RetryAfter {
                    sleep_ms: retry.sleep_ms,
                    next: retry.after_failure(),
                })
            } else {
                r == (FetchStep::Fail { error })
            },
        },
{
    match attempt {
        Attempt::Miss => FetchStep::Miss,
        Attempt::Fetched { size, path } => FetchStep::Register { size, path },
        Attempt::Failed { error } => match retry.next_step(false) {
            NextStep::RetryAfter { sleep_ms, next } => FetchStep::RetryAfter { sleep_ms, next },
            _ => FetchStep::Fail { error },
        },
    }
}

/// How a fetch begins.
#[derive(Clone, Copy, Debug, PartialEq, Eq, Structural)]
pub enum FetchStart {
    /// The cache holds the entry with `size` bytes: no request is made.
    Hit { size: u64 },
    /// The entry is requested from the upstream with the budget `retry`.
    Request { retry: Retry },
}

/// What a store or a fetch left in the cache.
#[derive(Debug)]
pub struct Stored {
    /// For a store, the key under which the entry was registered, `None`
    /// where the key was held already.
    pub name: Option<String>,
    /// For a fetch, the size of the entry registered.
    pub size: Option<u64>,
    /// The keys of the entries that have to leave the cache folder.
    pub evicted: Vec<String>,
}

/// The downloader: the settings and the index of the cache folder.
#[derive(Debug)]
pub struct Downloader {
    pub config: AppConfig,
    pub lru_cache: CacheIndex,
}

impl Downloader {
    /// Whether the index is sound and sized as the settings say.
    pub open spec fn wf(&self) -> bool {
        self.lru_cache.wf() && self.lru_cache.capacity == self.config.cache_folder_size
    }

    /// A downloader with an empty index of `cache_folder_size` bytes.
    pub fn new(app_config: AppConfig) -> (r: Downloader)
        ensures
            r.wf(),
            r.config == app_config,
            r.lru_cache.items() == Seq::<Item>::empty(),
    {
        let lru_cache = CacheIndex::new(app_config.cache_folder_size);
        Downloader { config: app_config, lru_cache }
    }

    /// The budget of a fetch: three retries, the first after twenty seconds,
    /// each wait twice the one before.
    pub fn fetch_retry() -> (r: Retry)
        ensures
            r == (Retry { tries: 3, sleep_ms: 20000, multiplier: 2 }),
    {
        Retry::new(3, 20000, 2)
    }

    /// The size of the entry `file_name` where the cache holds it: such an
    /// entry is served without a request to the upstream.
    pub fn cached(&mut self, file_name: &str) -> (r: Option<u64>)
        requires
            old(self).wf(),
        ensures
            final(self).wf(),
            final(self).config == old(self).config,
            r == size_of(old(self).lru_cache.items(), file_name@),
            final(self).lru_cache.items() == after_lookup(
                old(self).lru_cache.items(),
                file_name@,
            ),
    {
        self.lru_cache.lookup(file_name)
    }

    /// How a fetch of `file_name` begins: an entry that the cache holds is a
    /// hit, which needs no request to the upstream and becomes the most
    /// recently used entry; any other is requested with the fetch budget.
    pub fn start_fetch(&mut self, file_name: &str) -> (r: FetchStart)
        requires
            old(self).wf(),
        ensures
            final(self).wf(),
            final(self).config == old(self).config,
            r == match size_of(old(self).lru_cache.items(), file_name@) {
                Some(size) => FetchStart::Hit { size },
                None => FetchStart::Request {
                    retry: Retry { tries: 3, sleep_ms: 20000, multiplier: 2 },
                },
            },
            final(self).lru_cache.items() == after_lookup(
                old(self).lru_cache.items(),
                file_name@,
            ),
    {
        match self.lru_cache.lookup(file_name) {
            Some(size) => FetchStart::Hit { size },
            None => FetchStart::Request { retry: Downloader::fetch_retry() },
        }
    }

    /// Registers what a fetch brought for `file_name`: the size of the
    /// downloaded file, or `None` for a miss, which leaves the cache as it is.
    pub fn fetch_file(&mut self, file_name: &str, fetched: Option<u64>) -> (r: Stored)
        requires
            old(self).wf(),
        ensures
            final(self).wf(),
            final(self).config == old(self).config,
            r.name.is_none(),
            r.size == fetched,
            match fetched {
                Some(size) => {
                    &&& final(self).lru_cache.items() == after_insert(
                        old(self).lru_cache.items(),
                        file_name@,
                        size,
                        old(self).config.cache_folder_size,
                    )
                    &&& views(r.evicted@) == keys_of(
                        evicted_by(
                            old(self).lru_cache.items(),
                            file_name@,
                            size,
                            old(self).config.cache_folder_size,
                        ),
                    )
                },
                None => final(self).lru_cache.items() == old(self).lru_cache.items()
                    && r.evicted@.len() == 0,
            },
    {
        match fetched {
            Some(size) => {
                let evicted = self.lru_cache.insert(file_name, size);
                Stored { name: None, size: Some(size), evicted }
            },
            None => Stored { name: None, size: None, evicted: Vec::new() },
        }
    }

    /// Registers a request body of `size` bytes that was written to a file
    /// for the key `file_name`.  Where the key is held already nothing
    /// changes and no name is returned; else the entry is registered and its
    /// key returned.
    pub fn save_file(&mut self, file_name: &str, size: u64) -> (r: Stored)
        requires
            old(self).wf(),
        ensures
            final(self).wf(),
            final(self).config == old(self).config,
            r.size.is_none(),
            match size_of(old(self).lru_cache.items(), file_name@) {
                Some(_) => r.name.is_none() && r.evicted@.len() == 0 && final(self).lru_cache.items() == old(self).lru_cache.items(),
                None => {
                    &&& r.name.is_some()
                    &&& r.name.unwrap()@ == file_name@
                    &&& final(self).lru_cache.items() == after_insert(
                        old(self).lru_cache.items(),
                        file_name@,
                        size,
                        old(self).config.cache_folder_size,
                    )
                    &&& views(r.evicted@) == keys_of(
                        evicted_by(
                            old(self).lru_cache.items(),
                            file_name@,
                            size,
                            old(self).config.cache_folder_size,
                        ),
                    )
                },
            },
    {
        match self.lru_cache.peek(file_name) {
            Some(_) => Stored { name: None, size: None, evicted: Vec::new() },
            None => {
                let evicted = self.lru_cache.insert(file_name, size);
                Stored { name: Some(String::from_str(file_name)), size: None, evicted }
            },
        }
    }
}

} // verus!
