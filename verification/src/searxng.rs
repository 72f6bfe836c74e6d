//! The search client's decision logic: configuration merging, query
//! building and engine filtering.  The HTTP exchange itself lives
//! outside the library.

use vstd::prelude::*;

use crate::text::csv_fields;
use crate::text::split_csv_clean;
use crate::text::str_eq;
use crate::text::trim_ascii;
use crate::text::trim_seq;
use crate::text::views_of;
use vstd::string::StrSliceExecFns;
use vstd::string::StringExecFns;

verus! {

/// The safe-search level sent to the search aggregator.
#[derive(Clone, Copy, Debug, PartialEq, Eq, Structural)]
pub enum SafeSearch {
    Off,
    Moderate,
    Strict,
}

/// The numeric level of each safe-search setting.
pub open spec fn spec_safe_search_level(s: SafeSearch) -> int {
    match s {
        SafeSearch::Off => 0,
        SafeSearch::Moderate => 1,
        SafeSearch::Strict => 2,
    }
}

pub open spec fn spec_safe_search_from_env(s: Seq<char>) -> SafeSearch {
    if trim_seq(s) == "0"@ {
        SafeSearch::Off
    } else if trim_seq(s) == "2"@ {
        SafeSearch::Strict
    } else {
        SafeSearch::Moderate
    }
}

pub open spec fn spec_safe_search_from_u8(v: u8) -> SafeSearch {
    if v == 0 {
        SafeSearch::Off
    } else if v == 2 {
        SafeSearch::Strict
    } else {
        SafeSearch::Moderate
    }
}

impl SafeSearch {
    /// The level from an environment value: `0` off, `2` strict,
    /// anything else moderate.
    pub fn from_env(s: &str) -> (r: SafeSearch)
        ensures
            r == spec_safe_search_from_env(s@),
    {
        let t = trim_ascii(s);
        if str_eq(t, "0") {
            SafeSearch::Off
        } else if str_eq(t, "2") {
            SafeSearch::Strict
        } else {
            SafeSearch::Moderate
        }
    }

    /// The level from a file value: `0` off, `2` strict, anything else
    /// moderate.
    pub fn from_u8(v: u8) -> (r: SafeSearch)
        ensures
            r == spec_safe_search_from_u8(v),
    {
        if v == 0 {
            SafeSearch::Off
        } else if v == 2 {
            SafeSearch::Strict
        } else {
            SafeSearch::Moderate
        }
    }

    /// The numeric level, as the query string carries it.
    pub fn level(&self) -> (r: u8)
        ensures
            r as int == spec_safe_search_level(*self),
    {
        match self {
            SafeSearch::Off => 0,
            SafeSearch::Moderate => 1,
            SafeSearch::Strict => 2,
        }
    }
}

/// Which engines an engine listing reports.
#[derive(Clone, Copy, Debug, PartialEq, Eq, Structural)]
pub enum EngineFilter {
    Enabled,
    Disabled,
    All,
}

/// Whether an engine with the given enabled flag passes the filter.
pub open spec fn spec_engine_included(f: EngineFilter, enabled: bool) -> bool {
    match f {
        EngineFilter::All => true,
        EngineFilter::Enabled => enabled,
        EngineFilter::Disabled => !enabled,
    }
}

impl EngineFilter {
    pub fn includes(&self, enabled: bool) -> (r: bool)
        ensures
            r == spec_engine_included(*self, enabled),
    {
        match self {
            EngineFilter::All => true,
            EngineFilter::Enabled => enabled,
            EngineFilter::Disabled => !enabled,
        }
    }
}

/// The names of the engines that pass the filter, in listing order.
/// Each entry is an engine's name with its enabled flag, as read out
/// of the aggregator's configuration report.
pub fn filter_engine_names(entries: &Vec<(String, bool)>, filter: EngineFilter) -> (r: Vec<
    String,
>)
    ensures
        views_of(r@) == entries@.filter(
            |e: (String, bool)| spec_engine_included(filter, e.1),
        ).map_values(|e: (String, bool)| e.0@),
{
    let ghost pred = |e: (String, bool)| spec_engine_included(filter, e.1);
    let mut out: Vec<String> = Vec::new();
    let mut i: usize = 0;
    proof {
        assert(entries@.subrange(0, 0) =~= Seq::<(String, bool)>::empty());
        assert(Seq::<(String, bool)>::empty().filter(pred) =~= Seq::<(String, bool)>::empty())
            by {
            reveal_with_fuel(Seq::filter, 1);
        }
        assert(views_of(out@) =~= Seq::<Seq<char>>::empty());
    }
    while i < entries.len()
        invariant
            i <= entries@.len(),
            pred == (|e: (String, bool)| spec_engine_included(filter, e.1)),
            views_of(out@) =~= entries@.subrange(0, i as int).filter(pred).map_values(
                |e: (String, bool)| e.0@,
            ),
        decreases entries@.len() - i,
    {
        let ghost pre = entries@.subrange(0, i as int);
        proof {
            assert(entries@.subrange(0, i + 1) =~= pre + seq![entries@[i as int]]);
            Seq::filter_distributes_over_add(pre, seq![entries@[i as int]], pred);
            if pred(entries@[i as int]) {
                assert(seq![entries@[i as int]].filter(pred) =~= seq![entries@[i as int]]) by {
                    reveal_with_fuel(Seq::filter, 2);
                }
            } else {
                assert(seq![entries@[i as int]].filter(pred) =~= Seq::<(String, bool)>::empty())
                    by {
                    reveal_with_fuel(Seq::filter, 2);
                }
            }
        }
        if filter.includes(entries[i].1) {
            out.push(entries[i].0.clone());
            proof {
                assert((pre.filter(pred) + seq![entries@[i as int]]).map_values(
                    |e: (String, bool)| e.0@,
                ) =~= pre.filter(pred).map_values(|e: (String, bool)| e.0@).push(
                    entries@[i as int].0@,
                ));
                assert(views_of(out@) =~= views_of(out@.drop_last()).push(entries@[i as int].0@));
            }
        } else {
            proof {
                assert(pre.filter(pred) + Seq::<(String, bool)>::empty() =~= pre.filter(pred));
            }
        }
        i = i + 1;
    }
    proof {
        assert(entries@.subrange(0, entries@.len() as int) =~= entries@);
    }
    out
}

/// The client configuration for the search aggregator.
#[derive(Clone, Debug)]
pub struct SearxngConfig {
    pub base_url: String,
    pub default_categories: Vec<String>,
    pub default_engines: Vec<String>,
    pub language: String,
    pub safe_search: SafeSearch,
    pub user_agent: String,
    pub num_results: usize,
    pub timeout_secs: u64,
}

impl Default for SearxngConfig {
    /// A local aggregator, English, safe search off, five results,
    /// twenty seconds.
    fn default() -> (r: SearxngConfig)
        ensures
            r.base_url@ == "http://localhost:8080"@,
            r.default_categories@.len() == 0,
            r.default_engines@.len() == 0,
            r.language@ == "en"@,
            r.safe_search == SafeSearch::Off,
            r.user_agent@ == "searxng-mcp/0.1.0"@,
            r.num_results == 5,
            r.timeout_secs == 20,
    {
        SearxngConfig {
            base_url: String::from_str("http://localhost:8080"),
            default_categories: Vec::new(),
            default_engines: Vec::new(),
            language: String::from_str("en"),
            safe_search: SafeSearch::Off,
            user_agent: String::from_str("searxng-mcp/0.1.0"),
            num_results: 5,
            timeout_secs: 20,
        }
    }
}

impl SearxngConfig {
    /// Merge the file section over the defaults: a present field wins.
    pub fn from_sources(file: Option<crate::config::SearxngFileConfig>) -> (r: SearxngConfig)
        ensures
            r.base_url@ == match file {
                Some(f) => match f.base_url { Some(v) => v@, None => "http://localhost:8080"@ },
                None => "http://localhost:8080"@,
            },
            match file {
                Some(f) => match f.default_categories {
                    Some(v) => r.default_categories@ == v@,
                    None => r.default_categories@.len() == 0,
                },
                None => r.default_categories@.len() == 0,
            },
            match file {
                Some(f) => match f.default_engines {
                    Some(v) => r.default_engines@ == v@,
                    None => r.default_engines@.len() == 0,
                },
                None => r.default_engines@.len() == 0,
            },
            r.language@ == match file {
                Some(f) => match f.language { Some(v) => v@, None => "en"@ },
                None => "en"@,
            },
            r.safe_search == match file {
                Some(f) => match f.safe_search {
                    Some(v) => spec_safe_search_from_u8(v),
                    None => SafeSearch::Off,
                },
                None => SafeSearch::Off,
            },
            r.user_agent@ == match file {
                Some(f) => match f.user_agent { Some(v) => v@, None => "searxng-mcp/0.1.0"@ },
                None => "searxng-mcp/0.1.0"@,
            },
            r.num_results == match file {
                Some(f) => match f.num_results { Some(v) => v as int, None => 5 },
                None => 5,
            },
            r.timeout_secs == match file {
                Some(f) => match f.timeout_secs { Some(v) => v as int, None => 20 },
                None => 20,
            },
    {
        let mut cfg = SearxngConfig::default();
        if let Some(f) = file {
            if let Some(v) = f.base_url {
                cfg.base_url = v;
            }
            if let Some(v) = f.default_categories {
                cfg.default_categories = v;
            }
            if let Some(v) = f.default_engines {
                cfg.default_engines = v;
            }
            if let Some(v) = f.language {
                cfg.language = v;
            }
            if let Some(v) = f.safe_search {
                cfg.safe_search = SafeSearch::from_u8(v);
            }
            if let Some(v) = f.user_agent {
                cfg.user_agent = v;
            }
            if let Some(v) = f.num_results {
                cfg.num_results = v;
            }
            if let Some(v) = f.timeout_secs {
                cfg.timeout_secs = v;
            }
        }
        cfg
    }
}

/// One search request's parameters; absent fields fall back to the
/// client configuration.
#[derive(Clone, Debug, Default)]
pub struct SearchParams {
    pub query: String,
    pub categories: Option<String>,
    pub engines: Option<String>,
    pub language: Option<String>,
    pub pageno: Option<u32>,
    pub time_range: Option<String>,
    pub safe_search: Option<SafeSearch>,
    pub num_results: Option<usize>,
}

/// The entries of a comma-separated list, trimmed with empties
/// dropped and case kept: engine and category defaults read from the
/// environment.
pub fn parse_csv(s: &str) -> (r: Vec<String>)
    ensures
        views_of(r@) == csv_fields(s@, false),
{
    split_csv_clean(s, false)
}

/// A digit as a character.
pub open spec fn dec_digit_char(d: int) -> char {
    if d == 0 {
        '0'
    } else if d == 1 {
        '1'
    } else if d == 2 {
        '2'
    } else if d == 3 {
        '3'
    } else if d == 4 {
        '4'
    } else if d == 5 {
        '5'
    } else if d == 6 {
        '6'
    } else if d == 7 {
        '7'
    } else if d == 8 {
        '8'
    } else {
        '9'
    }
}

/// The decimal rendering of a non-negative number.
pub open spec fn dec_str(n: int) -> Seq<char>
    decreases n,
{
    if n < 10 {
        seq![dec_digit_char(n)]
    } else {
        dec_str(n / 10).push(dec_digit_char(n % 10))
    }
}

fn digit_str(d: u32) -> (r: &'static str)
    requires
        d < 10,
    ensures
        r@ =~= seq![dec_digit_char(d as int)],
{
    proof {
        reveal_strlit("0");
        reveal_strlit("1");
        reveal_strlit("2");
        reveal_strlit("3");
        reveal_strlit("4");
        reveal_strlit("5");
        reveal_strlit("6");
        reveal_strlit("7");
        reveal_strlit("8");
        reveal_strlit("9");
    }
    match d {
        0 => "0",
        1 => "1",
        2 => "2",
        3 => "3",
        4 => "4",
        5 => "5",
        6 => "6",
        7 => "7",
        8 => "8",
        _ => "9",
    }
}

/// The decimal rendering of `n`.
pub fn u32_to_string(n: u32) -> (r: String)
    ensures
        r@ == dec_str(n as int),
    decreases n,
{
    if n < 10 {
        String::from_str(digit_str(n))
    } else {
        let mut s = u32_to_string(n / 10);
        s.append(digit_str(n % 10));
        proof {
            assert(dec_str((n / 10) as int) + seq![dec_digit_char((n % 10) as int)] =~= dec_str(
                (n / 10) as int,
            ).push(dec_digit_char((n % 10) as int)));
        }
        s
    }
}

/// The comma-joined text of a list of values.
pub open spec fn spec_join_comma(parts: Seq<Seq<char>>) -> Seq<char>
    decreases parts.len(),
{
    if parts.len() == 0 {
        Seq::<char>::empty()
    } else if parts.len() == 1 {
        parts[0]
    } else {
        spec_join_comma(parts.drop_last()) + ","@ + parts.last()
    }
}

/// Join values with commas, as the aggregator's list parameters want.
pub fn join_comma(v: &Vec<String>) -> (r: String)
    ensures
        r@ == spec_join_comma(views_of(v@)),
{
    let mut out = String::new();
    let mut i: usize = 0;
    proof {
        assert(views_of(v@).subrange(0, 0) =~= Seq::<Seq<char>>::empty());
        assert(out@ =~= Seq::<char>::empty());
    }
    while i < v.len()
        invariant
            i <= v@.len(),
            out@ =~= spec_join_comma(views_of(v@).subrange(0, i as int)),
        decreases v@.len() - i,
    {
        if i > 0 {
            out.append(",");
        }
        out.append(v[i].as_str());
        proof {
            let parts = views_of(v@);
            assert(parts.subrange(0, i + 1).drop_last() =~= parts.subrange(0, i as int));
            assert(parts.subrange(0, i + 1).last() == parts[i as int]);
        }
        i = i + 1;
    }
    proof {
        assert(views_of(v@).subrange(0, v@.len() as int) =~= views_of(v@));
    }
    out
}

/// The pairs of a search request's query string, in order: the query,
/// the JSON format marker, the language and safe-search level, then
/// the optional categories, engines, page number and time range; each
/// optional parameter falls back to the configuration, and an empty
/// default list stays out entirely.
pub open spec fn spec_query_pairs(p: SearchParams, c: SearxngConfig) -> Seq<
    (Seq<char>, Seq<char>),
> {
    let lang = match p.language {
        Some(l) => l@,
        None => c.language@,
    };
    let cats = match p.categories {
        Some(x) => Some(x@),
        None => if c.default_categories@.len() == 0 {
            None
        } else {
            Some(spec_join_comma(views_of(c.default_categories@)))
        },
    };
    let engs = match p.engines {
        Some(x) => Some(x@),
        None => if c.default_engines@.len() == 0 {
            None
        } else {
            Some(spec_join_comma(views_of(c.default_engines@)))
        },
    };
    let ss = match p.safe_search {
        Some(s) => s,
        None => c.safe_search,
    };
    seq![
        ("q"@, p.query@),
        ("format"@, "json"@),
        ("language"@, lang),
        ("safesearch"@, seq![dec_digit_char(spec_safe_search_level(ss))]),
    ] + (match cats {
        Some(x) => seq![("categories"@, x)],
        None => Seq::<(Seq<char>, Seq<char>)>::empty(),
    }) + (match engs {
        Some(x) => seq![("engines"@, x)],
        None => Seq::<(Seq<char>, Seq<char>)>::empty(),
    }) + (match p.pageno {
        Some(n) => seq![("pageno"@, dec_str(n as int))],
        None => Seq::<(Seq<char>, Seq<char>)>::empty(),
    }) + (match p.time_range {
        Some(t) => seq![("time_range"@, t@)],
        None => Seq::<(Seq<char>, Seq<char>)>::empty(),
    })
}

pub open spec fn pair_views(s: Seq<(String, String)>) -> Seq<(Seq<char>, Seq<char>)> {
    s.map_values(|p: (String, String)| (p.0@, p.1@))
}

/// Build the query pairs for one search call.
pub fn build_search_query(p: &SearchParams, c: &SearxngConfig) -> (r: Vec<(String, String)>)
    ensures
        pair_views(r@) == spec_query_pairs(*p, *c),
{
    let mut out: Vec<(String, String)> = Vec::new();
    out.push((String::from_str("q"), p.query.clone()));
    out.push((String::from_str("format"), String::from_str("json")));
    let lang = match &p.language {
        Some(l) => l.clone(),
        None => c.language.clone(),
    };
    out.push((String::from_str("language"), lang));
    let ss = match p.safe_search {
        Some(s) => s,
        None => c.safe_search,
    };
    out.push((String::from_str("safesearch"), u32_to_string(ss.level() as u32)));
    let ghost head = spec_query_pairs(*p, *c);
    proof {
        assert(dec_str(spec_safe_search_level(ss)) =~= seq![
            dec_digit_char(spec_safe_search_level(ss)),
        ]);
        assert(pair_views(out@) =~= seq![
            ("q"@, p.query@),
            ("format"@, "json"@),
            (
                "language"@,
                match p.language {
                    Some(l) => l@,
                    None => c.language@,
                },
            ),
            ("safesearch"@, seq![dec_digit_char(spec_safe_search_level(ss))]),
        ]);
    }
    match &p.categories {
        Some(x) => {
            out.push((String::from_str("categories"), x.clone()));
        },
        None => {
            if c.default_categories.len() > 0 {
                out.push((String::from_str("categories"), join_comma(&c.default_categories)));
            }
        },
    }
    match &p.engines {
        Some(x) => {
            out.push((String::from_str("engines"), x.clone()));
        },
        None => {
            if c.default_engines.len() > 0 {
                out.push((String::from_str("engines"), join_comma(&c.default_engines)));
            }
        },
    }
    match p.pageno {
        Some(n) => {
            out.push((String::from_str("pageno"), u32_to_string(n)));
        },
        None => {},
    }
    match &p.time_range {
        Some(t) => {
            out.push((String::from_str("time_range"), t.clone()));
        },
        None => {},
    }
    proof {
        assert(pair_views(out@) =~= spec_query_pairs(*p, *c));
    }
    out
}

/// What trailing slashes the base URL carries are dropped before a
/// path is appended.
pub open spec fn spec_trim_slashes(s: Seq<char>) -> Seq<char>
    decreases s.len(),
{
    if s.len() > 0 && s[s.len() - 1] == '/' {
        spec_trim_slashes(s.drop_last())
    } else {
        s
    }
}

/// The aggregator's configuration endpoint for a base URL.
pub fn config_url(base: &str) -> (r: String)
    ensures
        r@ == spec_trim_slashes(base@) + "/config"@,
{
    let n = base.unicode_len();
    let mut cut = n;
    proof {
        assert(base@.subrange(0, n as int) =~= base@);
    }
    while cut > 0 && base.get_char(cut - 1) == '/'
        invariant
            cut <= n,
            n == base@.len(),
            forall|j: int| cut <= j < n ==> base@[j] == '/',
            spec_trim_slashes(base@) == spec_trim_slashes(base@.subrange(0, cut as int)),
        decreases cut,
    {
        proof {
            assert(base@.subrange(0, cut as int).drop_last() =~= base@.subrange(0, cut - 1));
        }
        cut = cut - 1;
    }
    let mut out = base.substring_char(0, cut).to_owned();
    proof {
        if cut > 0 {
            assert(base@.subrange(0, cut as int)[cut - 1] != '/');
        }
        assert(spec_trim_slashes(base@.subrange(0, cut as int)) == base@.subrange(0, cut as int));
    }
    out.append("/config");
    out
}

} // verus!
