//! The request payloads of the gateway's tools, as plain values.

use vstd::prelude::*;

use crate::searxng::EngineFilter;
use crate::searxng::SafeSearch;

verus! {

/// A health-check ping, with an optional message to echo.
#[derive(Clone, Debug)]
pub struct PingRequest {
    pub message: Option<String>,
}

/// One web search.
#[derive(Clone, Debug)]
pub struct SearchRequest {
    pub query: String,
    pub categories: Option<String>,
    pub engines: Option<String>,
    pub language: Option<String>,
    pub pageno: Option<u32>,
    pub time_range: Option<String>,
    pub safe_search: Option<SafeSearch>,
    pub num_results: Option<usize>,
}

/// One page fetch.
#[derive(Clone, Debug)]
pub struct BrowseRequest {
    pub url: String,
}

/// An engine listing.
#[derive(Clone, Debug)]
pub struct EnginesRequest {
    pub filter: Option<EngineFilter>,
}

/// A connectivity check, optionally counting enabled engines.
#[derive(Clone, Debug)]
pub struct HealthRequest {
    pub include_engines: Option<bool>,
}

} // verus!
