//! Verified core of a push-notification bridge for a decentralized
//! social-media firehose.
//!
//! The library holds the decision logic of the pipeline: frame/commit
//! handling, event classification and filtering, the two-tier resolver
//! caches with circuit breaking, the relationship engine with privacy
//! hashing, device registration, and push-dispatch decisions. All I/O
//! (database, HTTP, websocket, push gateway) lives outside the library
//! and hands plain values in and out.

pub mod circuit;
pub mod config;
pub mod crypto;
pub mod cursor;
pub mod devices;
pub mod dispatch;
pub mod filter;
pub mod firehose;
pub mod handles;
pub mod management;
pub mod models;
pub mod posts;
pub mod relationships;
pub mod strutil;
