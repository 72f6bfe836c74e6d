//! The host policy: given a host and the browse configuration, decide
//! whether the fetcher may contact it.
//!
//! An explicit allowlist fully defines the allow set; otherwise private
//! targets are refused unless `allow_private` is set.  The decision is
//! evaluated afresh for every hop of a redirect walk.

use vstd::prelude::*;

use crate::errors::DenyReason;
use crate::errors::FetchError;
use crate::ip::IpAddress;
use crate::ip::IpClass;
use crate::ip::host_ip_private;
use crate::ip::parse_ip_literal;
use crate::ip::spec_classify;
use crate::text::ascii_lowercase;
use crate::text::has_suffix;
use crate::text::lower_seq;
use crate::text::str_ends_with;
use crate::text::str_eq;
use crate::text::views_of;

verus! {

/// The outcome of the pre-resolution policy check of one target.
#[derive(Clone, Debug, PartialEq, Eq)]
pub enum TargetCheck {
    /// The host may be contacted without looking at DNS.
    Allowed,
    /// The host is refused outright.
    Denied { error: FetchError },
    /// The host is a name; its resolved addresses must pass
    /// `check_resolved_addresses` before it may be contacted.
    NeedsResolution,
}

/// `localhost`, or any name under `.localhost` (on the lowered host).
pub open spec fn spec_is_local_host(h: Seq<char>) -> bool {
    h == "localhost"@ || has_suffix(h, ".localhost"@)
}

pub open spec fn spec_allowlist_contains(list: Seq<Seq<char>>, h: Seq<char>) -> bool {
    exists|i: int| 0 <= i < list.len() && list[i] == h
}

pub open spec fn opt_views(o: Option<&Vec<String>>) -> Option<Seq<Seq<char>>> {
    match o {
        Some(v) => Some(views_of(v@)),
        None => None,
    }
}

/// The allowlist/localhost rules alone, before any IP reasoning: an
/// allowlist decides by exact membership of the lowered host; without
/// one, `allow_private` admits everything, and otherwise only the
/// localhost forms are refused here.
pub open spec fn spec_policy_allows(
    h: Seq<char>,
    allow_private: bool,
    allowed: Option<Seq<Seq<char>>>,
) -> Result<(), FetchError> {
    let hl = lower_seq(h);
    match allowed {
        Some(list) => if spec_allowlist_contains(list, hl) {
            Ok(())
        } else {
            Err(FetchError::PolicyDenied { reason: DenyReason::NotInAllowlist })
        },
        None => if allow_private {
            Ok(())
        } else if spec_is_local_host(hl) {
            Err(FetchError::PolicyDenied { reason: DenyReason::LocalHostBlocked })
        } else {
            Ok(())
        },
    }
}

/// The full pre-resolution decision for one target host.
pub open spec fn spec_evaluate_target(
    h: Seq<char>,
    allow_private: bool,
    allowed: Option<Seq<Seq<char>>>,
) -> TargetCheck {
    let hl = lower_seq(h);
    match allowed {
        Some(list) => if spec_allowlist_contains(list, hl) {
            TargetCheck::Allowed
        } else {
            TargetCheck::Denied {
                error: FetchError::PolicyDenied { reason: DenyReason::NotInAllowlist },
            }
        },
        None => if allow_private {
            TargetCheck::Allowed
        } else if spec_is_local_host(hl) {
            TargetCheck::Denied {
                error: FetchError::PolicyDenied { reason: DenyReason::LocalHostBlocked },
            }
        } else {
            match host_ip_private(hl) {
                Some(true) => TargetCheck::Denied {
                    error: FetchError::PolicyDenied { reason: DenyReason::PrivateIpBlocked },
                },
                Some(false) => TargetCheck::Allowed,
                None => TargetCheck::NeedsResolution,
            }
        },
    }
}

/// What the resolved addresses of a name must satisfy: resolution
/// worked, gave at least one address, and none of them is private.
pub open spec fn spec_resolution_check(addrs: Option<Seq<IpAddress>>) -> Result<(), FetchError> {
    match addrs {
        None => Err(FetchError::PolicyDenied { reason: DenyReason::ResolutionFailed }),
        Some(v) => if v.len() == 0 {
            Err(FetchError::PolicyDenied { reason: DenyReason::ResolutionFailed })
        } else if exists|i: int| 0 <= i < v.len() && spec_classify(v[i]) == IpClass::Private {
            Err(FetchError::PolicyDenied { reason: DenyReason::ResolvesToPrivate })
        } else {
            Ok(())
        },
    }
}

/// The decision for one hop once the environment's resolution answer is
/// known (`resolution` is ignored unless the target needs one).
pub open spec fn spec_host_decision(
    h: Seq<char>,
    allow_private: bool,
    allowed: Option<Seq<Seq<char>>>,
    resolution: Option<Seq<IpAddress>>,
) -> Result<(), FetchError> {
    match spec_evaluate_target(h, allow_private, allowed) {
        TargetCheck::Allowed => Ok(()),
        TargetCheck::Denied { error } => Err(error),
        TargetCheck::NeedsResolution => spec_resolution_check(resolution),
    }
}

/// True iff the host is syntactically local: `localhost` itself or any
/// name ending in `.localhost`, case-insensitively.
pub fn host_is_obviously_local(host: &str) -> (r: bool)
    ensures
        r == spec_is_local_host(lower_seq(host@)),
{
    let lc = ascii_lowercase(host);
    str_eq(lc.as_str(), "localhost") || str_ends_with(lc.as_str(), ".localhost")
}

/// The allowlist/localhost rules alone; `Ok` says nothing about IP
/// ranges, which `evaluate_target` layers on top.
pub fn policy_allows_host(
    host: &str,
    allow_private: bool,
    allowed_hosts: Option<&Vec<String>>,
) -> (r: Result<(), FetchError>)
    ensures
        r == spec_policy_allows(host@, allow_private, opt_views(allowed_hosts)),
{
    let host_lc = ascii_lowercase(host);
    match allowed_hosts {
        Some(list) => {
            let mut i: usize = 0;
            while i < list.len()
                invariant
                    i <= list@.len(),
                    host_lc@ == lower_seq(host@),
                    allowed_hosts matches Some(l) && l@ == list@,
                    forall|j: int| 0 <= j < i ==> list@[j]@ != host_lc@,
                decreases list@.len() - i,
            {
                if str_eq(list[i].as_str(), host_lc.as_str()) {
                    proof {
                        assert(list@[i as int]@ == host_lc@);
                        assert(views_of(list@)[i as int] == list@[i as int]@);
                        assert(spec_allowlist_contains(views_of(list@), lower_seq(host@)));
                    }
                    return Ok(());
                }
                i = i + 1;
            }
            proof {
                assert(!spec_allowlist_contains(views_of(list@), lower_seq(host@)));
            }
            Err(FetchError::PolicyDenied { reason: DenyReason::NotInAllowlist })
        },
        None => {
            if allow_private {
                return Ok(());
            }
            if str_eq(host_lc.as_str(), "localhost") || str_ends_with(
                host_lc.as_str(),
                ".localhost",
            ) {
                return Err(FetchError::PolicyDenied { reason: DenyReason::LocalHostBlocked });
            }
            Ok(())
        },
    }
}

/// The pre-resolution policy decision for one target host.
pub fn evaluate_target(
    host: &str,
    allow_private: bool,
    allowed_hosts: Option<&Vec<String>>,
) -> (r: TargetCheck)
    ensures
        r == spec_evaluate_target(host@, allow_private, opt_views(allowed_hosts)),
{
    match policy_allows_host(host, allow_private, allowed_hosts) {
        Err(e) => TargetCheck::Denied { error: e },
        Ok(()) => {
            if allowed_hosts.is_some() || allow_private {
                return TargetCheck::Allowed;
            }
            let host_lc = ascii_lowercase(host);
            match parse_ip_literal(host_lc.as_str()) {
                Some(ip) => {
                    if ip.is_private() {
                        TargetCheck::Denied {
                            error: FetchError::PolicyDenied {
                                reason: DenyReason::PrivateIpBlocked,
                            },
                        }
                    } else {
                        TargetCheck::Allowed
                    }
                },
                None => TargetCheck::NeedsResolution,
            }
        },
    }
}

/// Judge the DNS answer for a name: `None` is a failed resolution, an
/// empty answer is a failed resolution, and one private address among
/// the results refuses the whole name.
pub fn check_resolved_addresses(addrs: Option<&Vec<IpAddress>>) -> (r: Result<(), FetchError>)
    ensures
        r == spec_resolution_check(
            match addrs {
                Some(v) => Some(v@),
                None => None,
            },
        ),
{
    match addrs {
        None => Err(FetchError::PolicyDenied { reason: DenyReason::ResolutionFailed }),
        Some(v) => {
            if v.len() == 0 {
                return Err(FetchError::PolicyDenied { reason: DenyReason::ResolutionFailed });
            }
            let mut i: usize = 0;
            while i < v.len()
                invariant
                    i <= v@.len(),
                    v@.len() > 0,
                    addrs matches Some(w) && w@ == v@,
                    forall|j: int| 0 <= j < i ==> spec_classify(v@[j]) != IpClass::Private,
                decreases v@.len() - i,
            {
                if v[i].is_private() {
                    proof {
                        assert(spec_classify(v@[i as int]) == IpClass::Private);
                        assert(exists|j: int|
                            0 <= j < v@.len() && spec_classify(v@[j]) == IpClass::Private);
                        assert(spec_resolution_check(Some(v@)) == Err::<(), FetchError>(
                            FetchError::PolicyDenied { reason: DenyReason::ResolvesToPrivate },
                        ));
                    }
                    return Err(
                        FetchError::PolicyDenied { reason: DenyReason::ResolvesToPrivate },
                    );
                }
                i = i + 1;
            }
            Ok(())
        },
    }
}

} // verus!
