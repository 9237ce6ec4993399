//! The request handlers: each takes what the transport has parsed, calls
//! one operation of the store, and returns the reply or the failure.

pub mod answer;
pub mod question;
