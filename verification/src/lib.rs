//! Client library for a news-aggregation HTTP API.
//!
//! The library builds validated query URLs for the three endpoints
//! (everything, top-headlines, sources), maps HTTP error statuses into a
//! closed error taxonomy, and decodes JSON response bodies into typed
//! `Articles` and `Sources` structures.  Network I/O itself is left to the
//! caller: the library hands out the URL and the API key and interprets
//! status and body of the response.

pub mod api;
pub mod constants;
pub mod error;
pub mod text;
pub mod json;
pub mod payload;
pub mod time;
