//! Decision logic of a disk-caching reverse proxy for build artifacts.
//!
//! The crate holds the rules that the proxy follows: how a request path names
//! a cache entry, when a content-addressed entry may be served, how fetches
//! are retried, which entries the bounded cache index keeps, and what the
//! background replication worker and the idle watcher do next.  Every rule is
//! an executable function with a proved contract; networking, timers and the
//! file system belong to the program built around it.

pub mod text;
pub mod config;
pub mod server_error;
pub mod request;
pub mod process_action_cache;
pub mod client;
pub mod cache;
pub mod state;
pub mod terminator;
pub mod background_uploader;
pub mod downloader;
pub mod server;
pub mod unix_socket;
