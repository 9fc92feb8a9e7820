//! Coordination engine for a single shared in-memory discussion room.
//!
//! Connected clients join under a unique display name, post text messages,
//! and are notified of other participants' joins, posts and departures.
//! The [`worker::Worker`] owns the user directory and the ordered message
//! feed; it validates and applies requests and computes the individually
//! addressed response envelopes to fan out. The transport (sockets, frame
//! codecs, channels) lives outside this crate and hands the worker plain
//! values.

pub mod client;
pub mod directory;
pub mod feed;
pub mod laws;
pub mod message;
pub mod names;
mod outside;
pub mod request;
pub mod response;
pub mod user;
pub mod worker;
