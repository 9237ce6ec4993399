//! The entity model and the pagination request.

pub mod answer;
pub mod pagination;
pub mod question;
