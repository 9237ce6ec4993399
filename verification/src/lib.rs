//! A question-and-answer catalogue.
//!
//! * [`types`]: questions, answers, and the two ways to ask for a part of
//!   the listing, by `start` and `end` or by `offset` and `limit`, with
//!   their extraction from raw query parameters.
//! * [`handle_errors`]: the closed set of failures, their texts, and the
//!   reply that a rejected request gets.
//! * [`tables`]: the two ordered listings, with the laws that storing,
//!   updating, removing and paging obey.
//! * [`stores`]: the shared in-memory store, each listing behind a
//!   reader/writer lock.
//! * [`routes`]: the request handlers, from parsed values to a reply or a
//!   failure.
//! * [`reply`]: what a handler hands back for the transport to send.

pub mod handle_errors;
pub mod reply;
pub mod routes;
pub mod stores;
pub mod tables;
pub mod types;

/// The mapping from parameter names to raw values that a request's query
/// string is parsed into.
pub use vstd::hash_map::StringHashMap;
