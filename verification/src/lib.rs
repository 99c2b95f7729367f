//! Request-handling logic of a question-and-answer web service.

pub mod text;
pub mod number;
pub mod error;
pub mod types;
pub mod rate_limit;
pub mod routes;
pub mod store;
pub mod auth_crypto;
