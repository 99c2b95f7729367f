//! The decisions that the request handlers make around their database calls.

pub mod answer;
pub mod auth;
pub mod login;
pub mod question;
