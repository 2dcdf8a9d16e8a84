//! A small content delivery network: the rules of a cache node, which mirrors
//! files from upstream origins, and of a proxy node, which redirects clients
//! to cache nodes.
//!
//! The library decides and computes; reading and sending is left to the
//! program around it. Every function states what it returns, and the
//! statements are proved. What is taken on trust are the contracts of the
//! calls into `blake3`, `hex`, `globset`, `url`, `rand`, `tokio` and
//! `futures`, which stand in [`hashing`], [`globs`], [`urls`], [`random`] and
//! [`rpc`].
//!
//! A cache node: [`config`] names the entries, [`cache`] holds one entry's
//! index of [`digest`]s, [`cache_server`] answers a request, [`pool`] queues
//! the downloads in a [`job_queue`], [`downloader`] carries one out, and
//! [`named_file`] plans the response that serves a file. A proxy node:
//! [`cache_info`] and [`proxy_server`].

pub mod cache;
pub mod cache_info;
pub mod cache_server;
pub mod chunked_read_file;
pub mod config;
pub mod digest;
pub mod downloader;
pub mod entity_tag;
pub mod globs;
pub mod hash_serde;
pub mod hashing;
pub mod index;
pub mod job;
pub mod job_queue;
pub mod named_file;
pub mod paths;
pub mod pool;
pub mod proxy_server;
pub mod queue_model;
pub mod random;
pub mod range;
pub mod rpc;
pub mod text;
pub mod urls;
