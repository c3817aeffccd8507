//! Typed response payloads of the API's endpoints.

pub mod article;
pub mod source;
