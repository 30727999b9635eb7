//! Requests to, and replies from, a Chat Completions endpoint that serves
//! function-calling models under a `protected.` model namespace.

pub mod json;
pub mod text;
pub mod items;
pub mod headers;
pub mod request;
pub mod response;
pub mod catalog;
pub mod laws;
