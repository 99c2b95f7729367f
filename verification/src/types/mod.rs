//! The values that requests carry and that replies return.

pub mod answer;
pub mod pagination;
pub mod question;
pub mod user;
