//! Secure content fetcher for a SearXNG MCP gateway.
//!
//! The heart of the crate is the browse pipeline: decide whether a
//! user-supplied URL is safe to contact (SSRF protection), walk redirects
//! hop by hop under the same policy, stream the body under a byte cap,
//! strip style and script payloads, and render Markdown.

pub mod body;
pub mod config;
pub mod errors;
pub mod ip;
pub mod policy;
pub mod render;
pub mod requests;
pub mod sanitize;
pub mod searxng;
pub mod text;
pub mod tools;
pub mod urlparse;
pub mod walker;
