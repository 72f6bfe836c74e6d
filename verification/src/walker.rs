//! The redirect walker: per-hop validation, response handling, and the
//! laws of the hop loop.
//!
//! One browse call walks its redirects hop by hop.  Before any network
//! contact the hop's target must pass the host policy; a redirect
//! response moves the walk to the resolved `Location` and counts
//! against `max_redirects`; a success response is gated on its
//! content-type and then delivered to the body reader.  The loop that
//! performs I/O lives outside the library and is driven entirely by
//! `start_walk`, `hop_target_check`, `check_resolved_addresses` and
//! `handle_response`; `spec_walk` is the model of that loop, and the
//! proof functions at the end state its laws.

use vstd::prelude::*;

use crate::config::BrowseConfig;
use crate::errors::DenyReason;
use crate::errors::FetchError;
use crate::ip::IpAddress;
use crate::policy::TargetCheck;
use crate::policy::evaluate_target;
use crate::policy::spec_evaluate_target;
use crate::policy::spec_host_decision;
use crate::text::ascii_lowercase;
use crate::text::has_prefix;
use crate::text::lower_seq;
use crate::text::str_eq;
use crate::text::str_starts_with;
use crate::text::views_of;
use crate::urlparse::ParsedUrl;
use crate::urlparse::UrlModel;
use crate::urlparse::join_url;
use crate::urlparse::parse_url;
use crate::urlparse::url_join_of;
use crate::urlparse::url_parse_of;

verus! {

/// The per-call walk state: the current target and how many redirects
/// have been followed to reach it.
#[derive(Clone, Debug, PartialEq, Eq)]
pub struct WalkerState {
    pub url: ParsedUrl,
    pub hop: usize,
}

pub open spec fn is_redirect_status(status: u16) -> bool {
    300 <= status <= 399
}

pub open spec fn is_success_status(status: u16) -> bool {
    200 <= status <= 299
}

/// Only the text family may reach the Markdown converter.
pub open spec fn spec_content_type_allowed(ct_lc: Seq<char>) -> bool {
    ||| has_prefix(ct_lc, "text/"@)
    ||| has_prefix(ct_lc, "application/xhtml+xml"@)
    ||| has_prefix(ct_lc, "application/xml"@)
}

/// True iff the (raw) content-type value is in the text family,
/// case-insensitively.
pub fn content_type_allowed(ct: &str) -> (r: bool)
    ensures
        r == spec_content_type_allowed(lower_seq(ct@)),
{
    let lc = ascii_lowercase(ct);
    str_starts_with(lc.as_str(), "text/") || str_starts_with(lc.as_str(), "application/xhtml+xml")
        || str_starts_with(lc.as_str(), "application/xml")
}

pub open spec fn opt_str_view(o: Option<&String>) -> Option<Seq<char>> {
    match o {
        Some(s) => Some(s@),
        None => None,
    }
}

pub open spec fn opt_hosts_views(o: Option<Vec<String>>) -> Option<Seq<Seq<char>>> {
    match o {
        Some(v) => Some(views_of(v@)),
        None => None,
    }
}

/// What one response makes the walk do next, as a pure decision.
#[derive(Clone, Copy, Debug, PartialEq, Eq, Structural)]
pub enum HopDecision {
    /// A redirect that is followed: the walk moves on.
    FollowNext,
    /// A redirect at the last allowed hop.
    TooMany,
    /// A redirect without a `Location` header.
    NoLocation,
    /// A `Location` that does not resolve against the current URL.
    JoinFailed,
    /// A non-success status that is not a followed redirect.
    StatusError,
    /// A success carrying a content-type outside the text family.
    UnsupportedContent,
    /// A success to be read, streamed and rendered.
    Body,
}

/// Where a redirect's `Location` leads: the header value resolved
/// against the current URL and parsed again, as far as the url crate
/// takes it.
pub open spec fn joined_model(cur: Seq<char>, loc: Option<Seq<char>>) -> Option<UrlModel> {
    match loc {
        None => None,
        Some(l) => match url_join_of(cur, l) {
            None => None,
            Some(abs) => url_parse_of(abs),
        },
    }
}

/// The decision for one response.  Redirect handling comes first and
/// only applies when following is enabled; a redirect seen at hop
/// `max_redirects` is one too many; any other non-success status is
/// terminal; a success is gated on its content-type.
pub open spec fn spec_hop_decision(
    follow: bool,
    max_redirects: int,
    hop: int,
    status: u16,
    loc: Option<Seq<char>>,
    joined: Option<UrlModel>,
    ct: Option<Seq<char>>,
) -> HopDecision {
    if follow && is_redirect_status(status) {
        match loc {
            None => HopDecision::NoLocation,
            Some(l) => match joined {
                None => HopDecision::JoinFailed,
                Some(m) => if hop >= max_redirects {
                    HopDecision::TooMany
                } else {
                    HopDecision::FollowNext
                },
            },
        }
    } else if !is_success_status(status) {
        HopDecision::StatusError
    } else {
        match ct {
            Some(c) => if spec_content_type_allowed(lower_seq(c)) {
                HopDecision::Body
            } else {
                HopDecision::UnsupportedContent
            },
            None => HopDecision::Body,
        }
    }
}

/// Begin a walk: the URL must parse and carry an http or https scheme.
pub fn start_walk(url: &str, cfg: &BrowseConfig) -> (r: Result<WalkerState, FetchError>)
    ensures
        url_parse_of(url@) is None ==> r == Err::<WalkerState, FetchError>(FetchError::InvalidUrl),
        url_parse_of(url@) matches Some(m) ==> if m.scheme == "http"@ || m.scheme == "https"@ {
            r matches Ok(st) && st.url.models(m) && st.hop == 0
        } else {
            r matches Err(e) && (e matches FetchError::UnsupportedScheme { scheme } && scheme@
                == m.scheme)
        },
{
    let parsed = match parse_url(url) {
        Some(p) => p,
        None => {
            return Err(FetchError::InvalidUrl);
        },
    };
    if !(str_eq(parsed.scheme.as_str(), "http") || str_eq(parsed.scheme.as_str(), "https")) {
        return Err(FetchError::UnsupportedScheme { scheme: parsed.scheme });
    }
    Ok(WalkerState { url: parsed, hop: 0 })
}

/// What the caller must do before contacting the current target.
#[derive(Clone, Debug)]
pub enum HopCheck {
    /// The target passed the policy outright.
    Proceed,
    /// The target is refused; the walk is over.
    Deny { error: FetchError },
    /// The target is a name: resolve it and submit the answer to
    /// `check_resolved_addresses` before contacting it.
    Resolve { host: String, port: u16 },
}

pub open spec fn port_or_default(p: Option<u16>) -> u16 {
    match p {
        Some(v) => v,
        None => 80,
    }
}

/// The per-hop policy check of the current target, run afresh on every
/// hop: a URL without a host is invalid; otherwise the host policy
/// decides, and a plain name must go through DNS.
pub fn hop_target_check(st: &WalkerState, cfg: &BrowseConfig) -> (r: HopCheck)
    ensures
        (st.url.host is None ==> r == HopCheck::Deny { error: FetchError::InvalidUrl }),
        (st.url.host matches Some(h) ==> match spec_evaluate_target(
            h@,
            cfg.allow_private,
            opt_hosts_views(cfg.allowed_hosts),
        ) {
            TargetCheck::Allowed => r == HopCheck::Proceed,
            TargetCheck::Denied { error } => r == HopCheck::Deny { error },
            TargetCheck::NeedsResolution => r matches HopCheck::Resolve { host, port } && host@
                == h@ && port == port_or_default(st.url.port),
        }),
{
    let host = match &st.url.host {
        Some(h) => h,
        None => {
            return HopCheck::Deny { error: FetchError::InvalidUrl };
        },
    };
    match evaluate_target(host.as_str(), cfg.allow_private, cfg.allowed_hosts.as_ref()) {
        TargetCheck::Allowed => HopCheck::Proceed,
        TargetCheck::Denied { error } => HopCheck::Deny { error },
        TargetCheck::NeedsResolution => {
            let port = match st.url.port {
                Some(p) => p,
                None => 80,
            };
            HopCheck::Resolve { host: host.clone(), port }
        },
    }
}

/// What the walk does with one response.
#[derive(Clone, Debug)]
pub enum HopOutcome {
    /// A followed redirect: continue the loop at `next`.
    Follow { next: WalkerState },
    /// A delivered success: stream the body under the byte cap.
    ReadBody,
    /// A terminal non-success status; the caller may attach a body
    /// snippet when it builds the `HttpStatus` error.
    StatusFailure { status: u16 },
    /// A terminal failure.
    Fail { error: FetchError },
}

/// The response contract: for each decision the outcome is pinned.
pub open spec fn spec_response_outcome(
    r: HopOutcome,
    st: WalkerState,
    cfg: BrowseConfig,
    status: u16,
    loc: Option<Seq<char>>,
    ct: Option<Seq<char>>,
) -> bool {
    let joined = joined_model(st.url.serialized@, loc);
    let d = spec_hop_decision(
        cfg.follow_redirects,
        cfg.max_redirects as int,
        st.hop as int,
        status,
        loc,
        joined,
        ct,
    );
    &&& d == HopDecision::FollowNext ==> (r matches HopOutcome::Follow { next } && next.hop
        == st.hop + 1 && next.url.models(joined->0))
    &&& d == HopDecision::TooMany ==> r == HopOutcome::Fail {
        error: FetchError::TooManyRedirects { limit: cfg.max_redirects },
    }
    &&& d == HopDecision::NoLocation ==> r == HopOutcome::Fail { error: FetchError::BadRedirect }
    &&& d == HopDecision::JoinFailed ==> r == HopOutcome::Fail { error: FetchError::BadRedirect }
    &&& d == HopDecision::StatusError ==> r == HopOutcome::StatusFailure { status }
    &&& d == HopDecision::UnsupportedContent ==> (r matches HopOutcome::Fail { error }
        && error matches FetchError::UnsupportedContentType { content_type } && content_type@
        == ct->0)
    &&& d == HopDecision::Body ==> r == HopOutcome::ReadBody
}

/// Handle one response: follow a redirect under the hop limit, fail on
/// a bad or missing `Location`, flag a non-success status, and gate a
/// success on its content-type.
pub fn handle_response(
    st: &WalkerState,
    cfg: &BrowseConfig,
    status: u16,
    location: Option<&String>,
    content_type: Option<&String>,
) -> (r: HopOutcome)
    ensures
        spec_response_outcome(
            r,
            *st,
            *cfg,
            status,
            opt_str_view(location),
            opt_str_view(content_type),
        ),
{
    let redirect = 300 <= status && status <= 399;
    let success = 200 <= status && status <= 299;
    if cfg.follow_redirects && redirect {
        let loc = match location {
            Some(l) => l,
            None => {
                return HopOutcome::Fail { error: FetchError::BadRedirect };
            },
        };
        let abs = match join_url(st.url.serialized.as_str(), loc.as_str()) {
            Some(a) => a,
            None => {
                return HopOutcome::Fail { error: FetchError::BadRedirect };
            },
        };
        let next_url = match parse_url(abs.as_str()) {
            Some(u) => u,
            None => {
                return HopOutcome::Fail { error: FetchError::BadRedirect };
            },
        };
        if st.hop >= cfg.max_redirects {
            return HopOutcome::Fail {
                error: FetchError::TooManyRedirects { limit: cfg.max_redirects },
            };
        }
        return HopOutcome::Follow { next: WalkerState { url: next_url, hop: st.hop + 1 } };
    }
    if !success {
        return HopOutcome::StatusFailure { status };
    }
    match content_type {
        Some(ct) => {
            if content_type_allowed(ct.as_str()) {
                HopOutcome::ReadBody
            } else {
                HopOutcome::Fail {
                    error: FetchError::UnsupportedContentType { content_type: ct.clone() },
                }
            }
        },
        None => HopOutcome::ReadBody,
    }
}

/// One hop of the loop's model: the hop's target host, the DNS answer
/// the environment would give for it, and the response.
pub struct SpecHop {
    pub host: Seq<char>,
    pub resolution: Option<Seq<IpAddress>>,
    pub status: u16,
    pub location: Option<Seq<char>>,
    pub joined: Option<UrlModel>,
    pub content_type: Option<Seq<char>>,
}

/// How a modelled walk ends.
pub enum SpecWalkResult {
    /// A success response was delivered to the body reader.
    Delivered,
    /// The host policy refused a hop's target.
    PolicyStop { error: FetchError },
    /// A redirect without a usable `Location`.
    RedirectStop,
    /// The redirect chain outran the hop limit.
    TooManyStop,
    /// A terminal non-success status.
    StatusStop { status: u16 },
    /// A success with a content-type outside the text family.
    ContentStop,
    /// The script ended before the walk did.
    Unfinished,
}

/// The model of the hop loop: at each hop the target must pass the
/// host policy (with the hop's own resolution — never a cached one),
/// then the response decides; only `FollowNext` continues, and each
/// followed redirect raises the hop count by one.
pub open spec fn spec_walk(
    follow: bool,
    max_redirects: int,
    allow_private: bool,
    allowed: Option<Seq<Seq<char>>>,
    script: Seq<SpecHop>,
    i: int,
    hop: int,
) -> SpecWalkResult
    decreases script.len() - i,
{
    if !(0 <= i < script.len()) {
        SpecWalkResult::Unfinished
    } else {
        let h = script[i];
        match spec_host_decision(h.host, allow_private, allowed, h.resolution) {
            Err(e) => SpecWalkResult::PolicyStop { error: e },
            Ok(u) => match spec_hop_decision(
                follow,
                max_redirects,
                hop,
                h.status,
                h.location,
                h.joined,
                h.content_type,
            ) {
                HopDecision::FollowNext => spec_walk(
                    follow,
                    max_redirects,
                    allow_private,
                    allowed,
                    script,
                    i + 1,
                    hop + 1,
                ),
                HopDecision::TooMany => SpecWalkResult::TooManyStop,
                HopDecision::NoLocation => SpecWalkResult::RedirectStop,
                HopDecision::JoinFailed => SpecWalkResult::RedirectStop,
                HopDecision::StatusError => SpecWalkResult::StatusStop { status: h.status },
                HopDecision::UnsupportedContent => SpecWalkResult::ContentStop,
                HopDecision::Body => SpecWalkResult::Delivered,
            },
        }
    }
}

/// The hop's target passes the host policy with the hop's own
/// resolution.
pub open spec fn hop_policy_ok(
    h: SpecHop,
    allow_private: bool,
    allowed: Option<Seq<Seq<char>>>,
) -> bool {
    spec_host_decision(h.host, allow_private, allowed, h.resolution) is Ok
}

/// The hop redirects with a `Location` that resolves and parses.
pub open spec fn hop_redirects_cleanly(h: SpecHop) -> bool {
    is_redirect_status(h.status) && h.location is Some && h.joined is Some
}

/// The hop is a success whose content-type (if any) is acceptable.
pub open spec fn hop_delivers(h: SpecHop) -> bool {
    is_success_status(h.status) && match h.content_type {
        Some(c) => spec_content_type_allowed(lower_seq(c)),
        None => true,
    }
}

/// Law: with redirect following disabled, a redirect-class status is a
/// terminal status failure — never followed, never a silent success —
/// whatever the response carries besides.
pub proof fn lemma_no_follow_stops_on_redirect(
    max_redirects: int,
    hop: int,
    status: u16,
    loc: Option<Seq<char>>,
    joined: Option<UrlModel>,
    ct: Option<Seq<char>>,
)
    requires
        is_redirect_status(status),
    ensures
        spec_hop_decision(false, max_redirects, hop, status, loc, joined, ct)
            == HopDecision::StatusError,
{
    assert(!is_success_status(status));
}

proof fn lemma_chain_delivers_aux(
    max_redirects: int,
    allow_private: bool,
    allowed: Option<Seq<Seq<char>>>,
    script: Seq<SpecHop>,
    n: int,
    i: int,
)
    requires
        0 <= i <= n <= max_redirects,
        n < script.len(),
        forall|j: int|
            0 <= j < n ==> hop_policy_ok(#[trigger] script[j], allow_private, allowed)
                && hop_redirects_cleanly(script[j]),
        hop_policy_ok(script[n as int], allow_private, allowed),
        hop_delivers(script[n as int]),
    ensures
        spec_walk(true, max_redirects, allow_private, allowed, script, i, i)
            == SpecWalkResult::Delivered,
    decreases n - i,
{
    if i == n {
        assert(!is_redirect_status(script[i].status));
    } else {
        assert(hop_redirects_cleanly(script[i]));
        assert(spec_hop_decision(
            true,
            max_redirects,
            i,
            script[i].status,
            script[i].location,
            script[i].joined,
            script[i].content_type,
        ) == HopDecision::FollowNext);
        lemma_chain_delivers_aux(max_redirects, allow_private, allowed, script, n, i + 1);
    }
}

/// Law: with hop limit N, a chain of n followed redirects (n <= N)
/// whose hops all pass the policy, ending in a deliverable success,
/// delivers the body.
pub proof fn lemma_redirect_chain_delivers(
    max_redirects: int,
    allow_private: bool,
    allowed: Option<Seq<Seq<char>>>,
    script: Seq<SpecHop>,
    n: int,
)
    requires
        0 <= n <= max_redirects,
        n < script.len(),
        forall|j: int|
            0 <= j < n ==> hop_policy_ok(#[trigger] script[j], allow_private, allowed)
                && hop_redirects_cleanly(script[j]),
        hop_policy_ok(script[n as int], allow_private, allowed),
        hop_delivers(script[n as int]),
    ensures
        spec_walk(true, max_redirects, allow_private, allowed, script, 0, 0)
            == SpecWalkResult::Delivered,
{
    lemma_chain_delivers_aux(max_redirects, allow_private, allowed, script, n, 0);
}

proof fn lemma_chain_exhausts_aux(
    max_redirects: int,
    allow_private: bool,
    allowed: Option<Seq<Seq<char>>>,
    script: Seq<SpecHop>,
    i: int,
)
    requires
        0 <= i <= max_redirects,
        max_redirects < script.len(),
        forall|j: int|
            0 <= j <= max_redirects ==> hop_policy_ok(#[trigger] script[j], allow_private, allowed)
                && hop_redirects_cleanly(script[j]),
    ensures
        spec_walk(true, max_redirects, allow_private, allowed, script, i, i)
            == SpecWalkResult::TooManyStop,
    decreases max_redirects - i,
{
    if i == max_redirects {
        assert(hop_redirects_cleanly(script[i]));
    } else {
        lemma_chain_exhausts_aux(max_redirects, allow_private, allowed, script, i + 1);
    }
}

/// Law: when every hop up to the limit passes the policy and still
/// redirects, the walk stops with too-many-redirects at hop N; it does
/// not fetch a body from hop N+1 onwards.
pub proof fn lemma_redirect_chain_exhausts(
    max_redirects: int,
    allow_private: bool,
    allowed: Option<Seq<Seq<char>>>,
    script: Seq<SpecHop>,
)
    requires
        0 <= max_redirects < script.len(),
        forall|j: int|
            0 <= j <= max_redirects ==> hop_policy_ok(#[trigger] script[j], allow_private, allowed)
                && hop_redirects_cleanly(script[j]),
    ensures
        spec_walk(true, max_redirects, allow_private, allowed, script, 0, 0)
            == SpecWalkResult::TooManyStop,
{
    lemma_chain_exhausts_aux(max_redirects, allow_private, allowed, script, 0);
}

proof fn lemma_private_hop_aux(
    follow: bool,
    max_redirects: int,
    allowed: Option<Seq<Seq<char>>>,
    script: Seq<SpecHop>,
    k: int,
    i: int,
)
    requires
        0 <= i <= k < script.len(),
        k <= max_redirects,
        follow,
        forall|j: int|
            0 <= j < k ==> hop_policy_ok(#[trigger] script[j], false, allowed)
                && hop_redirects_cleanly(script[j]),
        spec_evaluate_target(script[k as int].host, false, allowed)
            == TargetCheck::NeedsResolution,
        (script[k as int].resolution matches Some(v) && exists|x: int|
            0 <= x < v.len() && crate::ip::spec_classify(v[x]) == crate::ip::IpClass::Private),
    ensures
        (spec_walk(follow, max_redirects, false, allowed, script, i, i)
            == SpecWalkResult::PolicyStop {
            error: FetchError::PolicyDenied { reason: DenyReason::ResolvesToPrivate },
        }),
    decreases k - i,
{
    if i == k {
        let v = script[k as int].resolution->0;
        assert(v.len() > 0) by {
            let x = choose|x: int|
                0 <= x < v.len() && crate::ip::spec_classify(v[x]) == crate::ip::IpClass::Private;
        }
    } else {
        lemma_private_hop_aux(follow, max_redirects, allowed, script, k, i + 1);
    }
}

/// Law: a hop whose target resolves to a private address is denied at
/// that hop with `ResolvesToPrivate`, no matter how many public hops
/// the chain went through before — the policy is re-run with each
/// hop's own resolution and never cached across hops.
pub proof fn lemma_private_resolution_denied(
    max_redirects: int,
    allowed: Option<Seq<Seq<char>>>,
    script: Seq<SpecHop>,
    k: int,
)
    requires
        0 <= k < script.len(),
        k <= max_redirects,
        forall|j: int|
            0 <= j < k ==> hop_policy_ok(#[trigger] script[j], false, allowed)
                && hop_redirects_cleanly(script[j]),
        spec_evaluate_target(script[k as int].host, false, allowed)
            == TargetCheck::NeedsResolution,
        (script[k as int].resolution matches Some(v) && exists|x: int|
            0 <= x < v.len() && crate::ip::spec_classify(v[x]) == crate::ip::IpClass::Private),
    ensures
        (spec_walk(true, max_redirects, false, allowed, script, 0, 0)
            == SpecWalkResult::PolicyStop {
            error: FetchError::PolicyDenied { reason: DenyReason::ResolvesToPrivate },
        }),
{
    lemma_private_hop_aux(true, max_redirects, allowed, script, k, 0);
}

} // verus!
