//! The tool allowlist of the gateway: tool names, their parsing, and
//! the comma-separated selection given on the command line or in the
//! environment.

use vstd::prelude::*;

use crate::text::csv_fields;
use crate::text::lower_seq;
use crate::text::str_eq;
use crate::text::split_csv_clean;
use crate::text::trim_ascii;
use crate::text::trim_seq;
use crate::text::views_of;
use vstd::string::StrSliceExecFns;
use vstd::string::StringExecFns;

verus! {

/// The tools the gateway can expose.
#[derive(Clone, Copy, Debug, PartialEq, Eq, Hash, Structural)]
pub enum ToolName {
    Search,
    Browse,
    Engines,
    Health,
    Ping,
}

pub open spec fn spec_tool_str(t: ToolName) -> Seq<char> {
    match t {
        ToolName::Search => "search"@,
        ToolName::Browse => "browse"@,
        ToolName::Engines => "engines"@,
        ToolName::Health => "health"@,
        ToolName::Ping => "ping"@,
    }
}

/// The tool a selection entry names: the entry is trimmed and folded
/// to lower case first; an unknown name is None.
pub open spec fn spec_tool_parse(s: Seq<char>) -> Option<ToolName> {
    let t = lower_seq(trim_seq(s));
    if t == "search"@ {
        Some(ToolName::Search)
    } else if t == "browse"@ {
        Some(ToolName::Browse)
    } else if t == "engines"@ {
        Some(ToolName::Engines)
    } else if t == "health"@ {
        Some(ToolName::Health)
    } else if t == "ping"@ {
        Some(ToolName::Ping)
    } else {
        None
    }
}

impl ToolName {
    /// The wire name of the tool.
    pub fn as_str(self) -> (r: &'static str)
        ensures
            r@ == spec_tool_str(self),
    {
        match self {
            ToolName::Search => "search",
            ToolName::Browse => "browse",
            ToolName::Engines => "engines",
            ToolName::Health => "health",
            ToolName::Ping => "ping",
        }
    }

    /// Parse one selection entry, case-insensitively and ignoring
    /// surrounding whitespace.
    pub fn parse(s: &str) -> (r: Option<ToolName>)
        ensures
            r == spec_tool_parse(s@),
    {
        let t = crate::text::ascii_lowercase(trim_ascii(s));
        if str_eq(t.as_str(), "search") {
            Some(ToolName::Search)
        } else if str_eq(t.as_str(), "browse") {
            Some(ToolName::Browse)
        } else if str_eq(t.as_str(), "engines") {
            Some(ToolName::Engines)
        } else if str_eq(t.as_str(), "health") {
            Some(ToolName::Health)
        } else if str_eq(t.as_str(), "ping") {
            Some(ToolName::Ping)
        } else {
            None
        }
    }
}

/// Which tools are enabled: one flag per tool, duplicates in the
/// selection collapse.
#[derive(Clone, Copy, Debug, PartialEq, Eq, Structural)]
pub struct ToolSet {
    pub search: bool,
    pub browse: bool,
    pub engines: bool,
    pub health: bool,
    pub ping: bool,
}

impl ToolSet {
    pub open spec fn spec_has(self, t: ToolName) -> bool {
        match t {
            ToolName::Search => self.search,
            ToolName::Browse => self.browse,
            ToolName::Engines => self.engines,
            ToolName::Health => self.health,
            ToolName::Ping => self.ping,
        }
    }

    pub fn empty() -> (r: ToolSet)
        ensures
            forall|t: ToolName| !r.spec_has(t),
    {
        ToolSet { search: false, browse: false, engines: false, health: false, ping: false }
    }

    pub fn contains(&self, t: ToolName) -> (r: bool)
        ensures
            r == self.spec_has(t),
    {
        match t {
            ToolName::Search => self.search,
            ToolName::Browse => self.browse,
            ToolName::Engines => self.engines,
            ToolName::Health => self.health,
            ToolName::Ping => self.ping,
        }
    }

    pub fn insert(&mut self, t: ToolName)
        ensures
            forall|u: ToolName| final(self).spec_has(u) == (old(self).spec_has(u) || u == t),
    {
        match t {
            ToolName::Search => {
                self.search = true;
            },
            ToolName::Browse => {
                self.browse = true;
            },
            ToolName::Engines => {
                self.engines = true;
            },
            ToolName::Health => {
                self.health = true;
            },
            ToolName::Ping => {
                self.ping = true;
            },
        }
    }
}

/// The entries of a comma-separated selection, trimmed, empties
/// dropped, case kept.
pub fn split_csv(s: &str) -> (r: Vec<String>)
    ensures
        views_of(r@) == csv_fields(s@, false),
{
    split_csv_clean(s, false)
}

/// Parse a tool selection.  Every entry must name a tool; otherwise
/// the unknown entries come back as the error, in selection order.
pub fn parse_enabled_tools(s: &str) -> (r: Result<ToolSet, Vec<String>>)
    ensures
        (r is Ok) == (forall|i: int|
            0 <= i < csv_fields(s@, false).len() ==> spec_tool_parse(
                #[trigger] csv_fields(s@, false)[i],
            ) is Some),
        (r matches Ok(ts) ==> forall|t: ToolName|
            ts.spec_has(t) == exists|i: int|
                0 <= i < csv_fields(s@, false).len() && spec_tool_parse(
                    #[trigger] csv_fields(s@, false)[i],
                ) == Some(t)),
        (r matches Err(unknown) ==> views_of(unknown@) == csv_fields(s@, false).filter(
            |f: Seq<char>| spec_tool_parse(f) is None,
        )),
{
    let parts = split_csv(s);
    let ghost fields = csv_fields(s@, false);
    let ghost bad = |f: Seq<char>| spec_tool_parse(f) is None;
    let mut ts = ToolSet::empty();
    let mut unknown: Vec<String> = Vec::new();
    let mut i: usize = 0;
    proof {
        assert(fields.subrange(0, 0) =~= Seq::<Seq<char>>::empty());
        assert(Seq::<Seq<char>>::empty().filter(bad) =~= Seq::<Seq<char>>::empty()) by {
            reveal_with_fuel(Seq::filter, 1);
        }
        assert(views_of(unknown@) =~= Seq::<Seq<char>>::empty());
    }
    while i < parts.len()
        invariant
            i <= parts@.len(),
            views_of(parts@) == fields,
            bad == (|f: Seq<char>| spec_tool_parse(f) is None),
            forall|t: ToolName|
                ts.spec_has(t) == exists|j: int|
                    0 <= j < i && spec_tool_parse(#[trigger] fields[j]) == Some(t),
            views_of(unknown@) =~= fields.subrange(0, i as int).filter(bad),
            views_of(unknown@).len() > 0 ==> exists|j: int|
                0 <= j < i && spec_tool_parse(#[trigger] fields[j]) is None,
        decreases parts@.len() - i,
    {
        let ghost pre = fields.subrange(0, i as int);
        proof {
            assert(fields.subrange(0, i + 1) =~= pre + seq![fields[i as int]]);
            Seq::filter_distributes_over_add(pre, seq![fields[i as int]], bad);
            if bad(fields[i as int]) {
                assert(seq![fields[i as int]].filter(bad) =~= seq![fields[i as int]]) by {
                    reveal_with_fuel(Seq::filter, 2);
                }
            } else {
                assert(seq![fields[i as int]].filter(bad) =~= Seq::<Seq<char>>::empty()) by {
                    reveal_with_fuel(Seq::filter, 2);
                }
            }
        }
        match ToolName::parse(parts[i].as_str()) {
            Some(t) => {
                ts.insert(t);
                proof {
                    assert(pre.filter(bad) + Seq::<Seq<char>>::empty() =~= pre.filter(bad));
                    assert forall|u: ToolName|
                        ts.spec_has(u) == exists|j: int|
                            0 <= j < i + 1 && spec_tool_parse(#[trigger] fields[j]) == Some(
                                u,
                            ) by {
                        if ts.spec_has(u) {
                            if u == t {
                                assert(spec_tool_parse(fields[i as int]) == Some(u));
                            }
                        }
                    }
                }
            },
            None => {
                unknown.push(parts[i].clone());
                proof {
                    assert(views_of(unknown@) =~= views_of(unknown@.drop_last()).push(
                        fields[i as int],
                    ));
                    assert(spec_tool_parse(fields[i as int]) is None);
                    assert forall|u: ToolName|
                        ts.spec_has(u) == exists|j: int|
                            0 <= j < i + 1 && spec_tool_parse(#[trigger] fields[j]) == Some(
                                u,
                            ) by {}
                }
            },
        }
        i = i + 1;
    }
    proof {
        assert(fields.subrange(0, parts@.len() as int) =~= fields);
    }
    if unknown.len() > 0 {
        proof {
            assert(views_of(unknown@).len() > 0);
        }
        return Err(unknown);
    }
    proof {
        if exists|i: int|
            0 <= i < fields.len() && spec_tool_parse(#[trigger] fields[i]) is None {
            let k = choose|k: int|
                0 <= k < fields.len() && spec_tool_parse(#[trigger] fields[k]) is None;
            assert(bad(fields[k]));
            Seq::lemma_filter_contains(fields, bad, k);
            assert(fields.filter(bad).len() > 0);
        }
    }
    Ok(ts)
}

/// A value cut down for a log line: trimmed, and capped at `max`
/// characters with a trailing ellipsis where it is longer.
pub fn truncate_for_log(s: &str, max: usize) -> (r: String)
    ensures
        trim_seq(s@).len() <= max ==> r@ == trim_seq(s@),
        trim_seq(s@).len() > max ==> r@ == trim_seq(s@).subrange(0, max as int) + "..."@,
{
    let t = trim_ascii(s);
    let n = t.unicode_len();
    if n <= max {
        return t.to_owned();
    }
    let mut out = t.substring_char(0, max).to_owned();
    out.append("...");
    out
}

} // verus!
