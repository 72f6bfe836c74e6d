//! Browse configuration: the immutable policy values a fetch call runs
//! under, and the optional file-sourced settings they are merged from.
//!
//! Precedence is defaults, then the configuration file; environment
//! overrides are applied by the caller on top of the merged value.

use vstd::prelude::*;

use crate::ip::dec_val;
use crate::ip::is_dec;
use crate::text::ascii_lowercase;
use crate::text::clean_field;
use crate::text::csv_fields;
use crate::text::lower_seq;
use crate::text::split_csv_clean;
use crate::text::str_eq;
use crate::text::trim_ascii;
use crate::text::trim_seq;
use crate::text::views_of;
use vstd::string::StrSliceExecFns;
use vstd::string::StringExecFns;

verus! {

/// The `browse` section of the configuration file; every field is
/// optional and falls back to the default.
#[derive(Clone, Debug, Default)]
pub struct BrowseFileConfig {
    pub follow_redirects: Option<bool>,
    pub max_redirects: Option<usize>,
    pub max_bytes: Option<usize>,
    pub timeout_secs: Option<u64>,
    pub user_agent: Option<String>,
    pub allowed_hosts: Option<Vec<String>>,
    pub allow_private: Option<bool>,
}

/// The `searxng` section of the configuration file.
#[derive(Clone, Debug, Default)]
pub struct SearxngFileConfig {
    pub base_url: Option<String>,
    pub default_categories: Option<Vec<String>>,
    pub default_engines: Option<Vec<String>>,
    pub language: Option<String>,
    pub safe_search: Option<u8>,
    pub user_agent: Option<String>,
    pub num_results: Option<usize>,
    pub timeout_secs: Option<u64>,
}

/// The `streamable_http` section of the configuration file.
#[derive(Clone, Debug, Default)]
pub struct StreamableHttpFileConfig {
    pub stateful_mode: Option<bool>,
    pub sse_keep_alive_secs: Option<u64>,
    pub sse_retry_secs: Option<u64>,
}

/// The whole configuration file.
#[derive(Clone, Debug, Default)]
pub struct FileConfig {
    pub tools: Option<Vec<String>>,
    pub searxng: Option<SearxngFileConfig>,
    pub browse: Option<BrowseFileConfig>,
    pub streamable_http: Option<StreamableHttpFileConfig>,
}

/// The policy one browse call runs under.
#[derive(Clone, Debug)]
pub struct BrowseConfig {
    /// Redirects are errors unless this is set.
    pub follow_redirects: bool,
    /// How many redirects one call may follow.
    pub max_redirects: usize,
    /// The body-size ceiling in bytes.
    pub max_bytes: usize,
    /// One wall-clock bound over the whole call, in seconds.
    pub timeout_secs: u64,
    pub user_agent: String,
    /// When present: non-empty, lower-cased, and the complete allow
    /// set — IP heuristics are bypassed for listed hosts by design.
    pub allowed_hosts: Option<Vec<String>>,
    /// Admit private and local targets.
    pub allow_private: bool,
}

/// The merged allowlist: entries trimmed and lower-cased, empties
/// dropped; no list at all where nothing usable remains.
pub open spec fn spec_clean_hosts(entries: Seq<Seq<char>>) -> Seq<Seq<char>> {
    entries.map_values(|h: Seq<char>| clean_field(h, true)).filter(|h: Seq<char>| h.len() > 0)
}

/// A well-formed configuration: a present allowlist is non-empty.
pub open spec fn spec_config_well_formed(c: BrowseConfig) -> bool {
    c.allowed_hosts matches Some(v) ==> v@.len() > 0
}

impl Default for BrowseConfig {
    /// Redirects off, 10 hops, 2 MB, 20 s, no allowlist, private
    /// targets blocked.
    fn default() -> (r: BrowseConfig)
        ensures
            r.follow_redirects == false,
            r.max_redirects == 10,
            r.max_bytes == 2000000,
            r.timeout_secs == 20,
            r.user_agent@ == "searxng-mcp/0.1.0"@,
            r.allowed_hosts is None,
            r.allow_private == false,
            spec_config_well_formed(r),
    {
        BrowseConfig {
            follow_redirects: false,
            max_redirects: 10,
            max_bytes: 2000000,
            timeout_secs: 20,
            user_agent: String::from_str("searxng-mcp/0.1.0"),
            allowed_hosts: None,
            allow_private: false,
        }
    }
}

/// Clean a host list for the allowlist: trim, lower-case, drop
/// entries that end up empty.
fn clean_hosts(entries: &Vec<String>) -> (r: Vec<String>)
    ensures
        views_of(r@) == spec_clean_hosts(views_of(entries@)),
{
    let mut out: Vec<String> = Vec::new();
    let mut i: usize = 0;
    proof {
        assert(views_of(entries@).subrange(0, 0) =~= Seq::<Seq<char>>::empty());
        assert(views_of(out@) =~= Seq::<Seq<char>>::empty());
        assert(spec_clean_hosts(Seq::<Seq<char>>::empty()) =~= Seq::<Seq<char>>::empty());
    }
    while i < entries.len()
        invariant
            i <= entries@.len(),
            views_of(out@) =~= spec_clean_hosts(views_of(entries@).subrange(0, i as int)),
        decreases entries@.len() - i,
    {
        let cleaned = crate::text::ascii_lowercase(crate::text::trim_ascii(entries[i].as_str()));
        let ghost pre = views_of(entries@).subrange(0, i as int);
        let ghost cl = |h: Seq<char>| clean_field(h, true);
        let ghost ne = |h: Seq<char>| h.len() > 0;
        proof {
            assert(views_of(entries@).subrange(0, i + 1) =~= pre.push(entries@[i as int]@));
            assert(pre.push(entries@[i as int]@).map_values(cl) =~= pre.map_values(cl) + seq![
                cl(entries@[i as int]@),
            ]);
            Seq::filter_distributes_over_add(pre.map_values(cl), seq![cl(entries@[i as int]@)], ne);
        }
        if cleaned.as_str().unicode_len() > 0 {
            out.push(cleaned);
            proof {
                assert(seq![cl(entries@[i as int]@)].filter(ne) =~= seq![
                    cl(entries@[i as int]@),
                ]) by {
                    reveal_with_fuel(Seq::filter, 2);
                }
                assert(views_of(out@) =~= views_of(out@.drop_last()).push(
                    cl(entries@[i as int]@),
                ));
            }
        } else {
            proof {
                assert(seq![cl(entries@[i as int]@)].filter(ne) =~= Seq::<Seq<char>>::empty())
                    by {
                    reveal_with_fuel(Seq::filter, 2);
                }
                assert(views_of(out@) + Seq::<Seq<char>>::empty() =~= views_of(out@));
            }
        }
        i = i + 1;
    }
    proof {
        assert(views_of(entries@).subrange(0, entries@.len() as int) =~= views_of(entries@));
    }
    out
}

/// The comma-separated host list of an environment override, trimmed
/// and lower-cased with empties dropped.
pub fn parse_csv(s: &str) -> (r: Vec<String>)
    ensures
        views_of(r@) == csv_fields(s@, true),
{
    split_csv_clean(s, true)
}

/// The forms a switch-like override accepts as true.
pub open spec fn spec_bool_flag(s: Seq<char>) -> bool {
    let t = lower_seq(trim_seq(s));
    t == "1"@ || t == "true"@ || t == "yes"@ || t == "on"@
}

/// Read a boolean override's value: `1`, `true`, `yes` and `on` are
/// true (ignoring case and surrounding whitespace), everything else is
/// false.
pub fn parse_bool_flag(s: &str) -> (r: bool)
    ensures
        r == spec_bool_flag(s@),
{
    let t = ascii_lowercase(trim_ascii(s));
    str_eq(t.as_str(), "1") || str_eq(t.as_str(), "true") || str_eq(t.as_str(), "yes") || str_eq(
        t.as_str(),
        "on",
    )
}

/// The value of a digit string, most significant first.
pub open spec fn spec_dec_value(s: Seq<char>) -> int
    decreases s.len(),
{
    if s.len() == 0 {
        0
    } else {
        spec_dec_value(s.drop_last()) * 10 + dec_val(s.last())
    }
}

/// A non-empty digit string whose value fits in 64 bits, as that
/// value; anything else as nothing.
pub open spec fn spec_parse_digits(t: Seq<char>) -> Option<u64> {
    if t.len() > 0 && (forall|i: int| 0 <= i < t.len() ==> is_dec(t[i])) && spec_dec_value(t)
        <= u64::MAX {
        Some(spec_dec_value(t) as u64)
    } else {
        None
    }
}

/// What a numeric override means: an optional `+`, then digits, whose
/// value fits in 64 bits; anything else reads as nothing.
pub open spec fn spec_parse_u64(s: Seq<char>) -> Option<u64> {
    if s.len() > 0 && s[0] == '+' {
        spec_parse_digits(s.drop_first())
    } else {
        spec_parse_digits(s)
    }
}

/// A longer digit prefix never has a smaller value.
proof fn lemma_dec_value_grows(s: Seq<char>, i: int, j: int)
    requires
        0 <= i <= j <= s.len(),
        forall|k: int| 0 <= k < s.len() ==> is_dec(s[k]),
    ensures
        spec_dec_value(s.subrange(0, i)) <= spec_dec_value(s.subrange(0, j)),
    decreases j - i,
{
    lemma_dec_value_nonneg(s.subrange(0, i));
    if i < j {
        lemma_dec_value_grows(s, i + 1, j);
        let p = s.subrange(0, i + 1);
        assert(p.drop_last() =~= s.subrange(0, i));
        assert(spec_dec_value(p) == spec_dec_value(s.subrange(0, i)) * 10 + dec_val(s[i]));
        lemma_dec_value_nonneg(s.subrange(0, i));
        assert(dec_val(s[i]) >= 0);
    }
}

proof fn lemma_dec_value_nonneg(s: Seq<char>)
    requires
        forall|k: int| 0 <= k < s.len() ==> is_dec(s[k]),
    ensures
        spec_dec_value(s) >= 0,
    decreases s.len(),
{
    if s.len() > 0 {
        assert(s.drop_last() =~= s.subrange(0, s.len() - 1));
        lemma_dec_value_nonneg(s.drop_last());
    }
}

/// Read a numeric override's digits.
fn parse_digits_u64(t: &str) -> (r: Option<u64>)
    ensures
        r == spec_parse_digits(t@),
{
    let n = t.unicode_len();
    if n == 0 {
        return None;
    }
    let mut acc: u64 = 0;
    let mut i: usize = 0;
    proof {
        assert(t@.subrange(0, 0) =~= Seq::<char>::empty());
    }
    while i < n
        invariant
            i <= n,
            n == t@.len(),
            forall|j: int| 0 <= j < i ==> is_dec(t@[j]),
            acc == spec_dec_value(t@.subrange(0, i as int)),
        decreases n - i,
    {
        let c = t.get_char(i);
        let u = c as u32;
        if !(48 <= u && u <= 57) {
            proof {
                assert(!is_dec(t@[i as int]));
            }
            return None;
        }
        let d = (u - 48) as u64;
        if acc > (u64::MAX - d) / 10 {
            proof {
                assert(t@.subrange(0, i + 1).drop_last() =~= t@.subrange(0, i as int));
                assert(spec_dec_value(t@.subrange(0, i + 1)) == acc * 10 + d);
                assert(acc * 10 + d > u64::MAX) by (nonlinear_arith)
                    requires
                        acc > (u64::MAX - d) / 10,
                        d <= 9,
                        acc >= 0,
                ;
                if forall|j: int| 0 <= j < t@.len() ==> is_dec(t@[j]) {
                    lemma_dec_value_grows(t@, i + 1, t@.len() as int);
                    assert(t@.subrange(0, t@.len() as int) =~= t@);
                }
            }
            return None;
        }
        proof {
            assert(acc * 10 + d <= u64::MAX) by (nonlinear_arith)
                requires
                    acc <= (u64::MAX - d) / 10,
                    d <= 9,
                    acc >= 0,
            ;
            assert(t@.subrange(0, i + 1).drop_last() =~= t@.subrange(0, i as int));
        }
        acc = acc * 10 + d;
        i = i + 1;
    }
    proof {
        assert(t@.subrange(0, n as int) =~= t@);
    }
    Some(acc)
}

/// Read a numeric override's value: an optional `+`, then decimal
/// digits; None where the text has another shape or the value does not
/// fit in 64 bits.
pub fn parse_u64_value(s: &str) -> (r: Option<u64>)
    ensures
        r == spec_parse_u64(s@),
{
    let n = s.unicode_len();
    if n > 0 && s.get_char(0) == '+' {
        let t = s.substring_char(1, n);
        proof {
            assert(t@ =~= s@.drop_first());
        }
        parse_digits_u64(t)
    } else {
        parse_digits_u64(s)
    }
}

impl BrowseConfig {
    /// Merge the file section over the defaults: a present field wins,
    /// a user agent that trims to nothing is ignored, and the allowlist
    /// is cleaned entry by entry and dropped entirely when nothing
    /// usable remains.
    pub fn from_sources(file: Option<BrowseFileConfig>) -> (r: BrowseConfig)
        ensures
            spec_config_well_formed(r),
            r.follow_redirects == match file {
                Some(f) => match f.follow_redirects { Some(v) => v, None => false },
                None => false,
            },
            r.max_redirects == match file {
                Some(f) => match f.max_redirects { Some(v) => v as int, None => 10 },
                None => 10,
            },
            r.max_bytes == match file {
                Some(f) => match f.max_bytes { Some(v) => v as int, None => 2000000 },
                None => 2000000,
            },
            r.timeout_secs == match file {
                Some(f) => match f.timeout_secs { Some(v) => v as int, None => 20 },
                None => 20,
            },
            r.user_agent@ == match file {
                Some(f) => match f.user_agent {
                    Some(v) => if trim_seq(v@).len() > 0 { v@ } else { "searxng-mcp/0.1.0"@ },
                    None => "searxng-mcp/0.1.0"@,
                },
                None => "searxng-mcp/0.1.0"@,
            },
            match file {
                Some(f) => match f.allowed_hosts {
                    Some(list) => if spec_clean_hosts(views_of(list@)).len() > 0 {
                        r.allowed_hosts matches Some(v) && views_of(v@) == spec_clean_hosts(
                            views_of(list@),
                        )
                    } else {
                        r.allowed_hosts is None
                    },
                    None => r.allowed_hosts is None,
                },
                None => r.allowed_hosts is None,
            },
            r.allow_private == match file {
                Some(f) => match f.allow_private { Some(v) => v, None => false },
                None => false,
            },
    {
        let mut cfg = BrowseConfig::default();
        if let Some(f) = file {
            if let Some(v) = f.follow_redirects {
                cfg.follow_redirects = v;
            }
            if let Some(v) = f.max_redirects {
                cfg.max_redirects = v;
            }
            if let Some(v) = f.max_bytes {
                cfg.max_bytes = v;
            }
            if let Some(v) = f.timeout_secs {
                cfg.timeout_secs = v;
            }
            if let Some(v) = f.user_agent {
                let trimmed_len = crate::text::trim_ascii(v.as_str()).unicode_len();
                if trimmed_len > 0 {
                    cfg.user_agent = v;
                }
            }
            if let Some(list) = f.allowed_hosts {
                let cleaned = clean_hosts(&list);
                if cleaned.len() > 0 {
                    cfg.allowed_hosts = Some(cleaned);
                } else {
                    cfg.allowed_hosts = None;
                }
            }
            if let Some(v) = f.allow_private {
                cfg.allow_private = v;
            }
        }
        cfg
    }
}

} // verus!
