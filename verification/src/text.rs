//! Character-level string helpers: ASCII case folding, trimming,
//! prefix/suffix tests and comma-separated lists.
//!
//! Everything here is executable and verified against spec functions on
//! `Seq<char>`; no outside code is involved.

use vstd::prelude::*;
use vstd::string::StrSliceExecFns;
use vstd::string::StringExecFns;

verus! {

/// ASCII whitespace, the forms `trim_ascii` removes.
pub open spec fn is_space(c: char) -> bool {
    c == ' ' || c == '\t' || c == '\n' || c == '\r'
}

/// ASCII upper-case letter to its lower-case form; all else unchanged.
pub open spec fn lower_char(c: char) -> char {
    if 'A' <= c && c <= 'Z' {
        (((c as u32) + 32) as u32) as char
    } else {
        c
    }
}

pub open spec fn lower_seq(s: Seq<char>) -> Seq<char> {
    s.map_values(|c: char| lower_char(c))
}

/// Drop leading ASCII whitespace.
pub open spec fn trim_front(s: Seq<char>) -> Seq<char>
    decreases s.len(),
{
    if s.len() > 0 && is_space(s[0]) {
        trim_front(s.drop_first())
    } else {
        s
    }
}

/// Drop trailing ASCII whitespace.
pub open spec fn trim_back(s: Seq<char>) -> Seq<char>
    decreases s.len(),
{
    if s.len() > 0 && is_space(s[s.len() - 1]) {
        trim_back(s.drop_last())
    } else {
        s
    }
}

pub open spec fn trim_seq(s: Seq<char>) -> Seq<char> {
    trim_back(trim_front(s))
}

proof fn lemma_trim_front_subrange(s: Seq<char>, i: int)
    requires
        0 <= i <= s.len(),
        forall|j: int| 0 <= j < i ==> is_space(s[j]),
    ensures
        trim_front(s) == trim_front(s.subrange(i, s.len() as int)),
    decreases i,
{
    if i > 0 {
        assert(is_space(s[0]));
        assert(s.drop_first() =~= s.subrange(1, s.len() as int));
        let t = s.subrange(1, s.len() as int);
        lemma_trim_front_subrange(t, i - 1);
        assert(t.subrange(i - 1, t.len() as int) =~= s.subrange(i, s.len() as int));
    } else {
        assert(s.subrange(0, s.len() as int) =~= s);
    }
}

proof fn lemma_trim_back_subrange(s: Seq<char>, i: int)
    requires
        0 <= i <= s.len(),
        forall|j: int| i <= j < s.len() ==> is_space(s[j]),
    ensures
        trim_back(s) == trim_back(s.subrange(0, i)),
    decreases s.len() - i,
{
    if i < s.len() {
        assert(is_space(s[s.len() - 1]));
        lemma_trim_back_subrange(s.drop_last(), i);
        assert(s.drop_last().subrange(0, i) =~= s.subrange(0, i));
    } else {
        assert(s.subrange(0, i) =~= s);
    }
}

/// True iff the character is ASCII whitespace.
pub fn char_is_space(c: char) -> (r: bool)
    ensures
        r == is_space(c),
{
    c == ' ' || c == '\t' || c == '\n' || c == '\r'
}

/// Remove leading and trailing ASCII whitespace.
pub fn trim_ascii(s: &str) -> (r: &str)
    ensures
        r@ == trim_seq(s@),
{
    let n = s.unicode_len();
    let mut lo: usize = 0;
    while lo < n && char_is_space(s.get_char(lo))
        invariant
            lo <= n,
            n == s@.len(),
            forall|j: int| 0 <= j < lo ==> is_space(s@[j]),
        decreases n - lo,
    {
        lo = lo + 1;
    }
    let mut hi: usize = n;
    while hi > lo && char_is_space(s.get_char(hi - 1))
        invariant
            lo <= hi <= n,
            n == s@.len(),
            forall|j: int| 0 <= j < lo ==> is_space(s@[j]),
            forall|j: int| hi <= j < n ==> is_space(s@[j]),
        decreases hi,
    {
        hi = hi - 1;
    }
    let r = s.substring_char(lo, hi);
    proof {
        lemma_trim_front_subrange(s@, lo as int);
        let t = s@.subrange(lo as int, n as int);
        if lo < hi {
            assert(t[0] == s@[lo as int]);
            assert(trim_front(t) == t);
            lemma_trim_back_subrange(t, (hi - lo) as int);
            let u = t.subrange(0, (hi - lo) as int);
            assert(u =~= s@.subrange(lo as int, hi as int));
            assert(u[u.len() - 1] == s@[hi - 1]);
            assert(trim_back(u) == u);
        } else {
            assert(t =~= Seq::<char>::empty());
            assert(s@.subrange(lo as int, hi as int) =~= Seq::<char>::empty());
        }
    }
    r
}

/// Lower-case form of one ASCII letter as a one-character string.
fn lower_char_str(c: char) -> (r: Option<&'static str>)
    ensures
        r is Some ==> (r->0)@ =~= seq![lower_char(c)] && 'A' <= c && c <= 'Z',
        r is None ==> lower_char(c) == c,
{
    proof {
        reveal_strlit("a");
        reveal_strlit("b");
        reveal_strlit("c");
        reveal_strlit("d");
        reveal_strlit("e");
        reveal_strlit("f");
        reveal_strlit("g");
        reveal_strlit("h");
        reveal_strlit("i");
        reveal_strlit("j");
        reveal_strlit("k");
        reveal_strlit("l");
        reveal_strlit("m");
        reveal_strlit("n");
        reveal_strlit("o");
        reveal_strlit("p");
        reveal_strlit("q");
        reveal_strlit("r");
        reveal_strlit("s");
        reveal_strlit("t");
        reveal_strlit("u");
        reveal_strlit("v");
        reveal_strlit("w");
        reveal_strlit("x");
        reveal_strlit("y");
        reveal_strlit("z");
    }
    match c {
        'A' => Some("a"),
        'B' => Some("b"),
        'C' => Some("c"),
        'D' => Some("d"),
        'E' => Some("e"),
        'F' => Some("f"),
        'G' => Some("g"),
        'H' => Some("h"),
        'I' => Some("i"),
        'J' => Some("j"),
        'K' => Some("k"),
        'L' => Some("l"),
        'M' => Some("m"),
        'N' => Some("n"),
        'O' => Some("o"),
        'P' => Some("p"),
        'Q' => Some("q"),
        'R' => Some("r"),
        'S' => Some("s"),
        'T' => Some("t"),
        'U' => Some("u"),
        'V' => Some("v"),
        'W' => Some("w"),
        'X' => Some("x"),
        'Y' => Some("y"),
        'Z' => Some("z"),
        _ => None,
    }
}

/// ASCII lower-case fold of a string; characters outside A-Z are kept.
pub fn ascii_lowercase(s: &str) -> (r: String)
    ensures
        r@ == lower_seq(s@),
{
    let n = s.unicode_len();
    let mut out = String::new();
    let mut i: usize = 0;
    while i < n
        invariant
            i <= n,
            n == s@.len(),
            out@ =~= lower_seq(s@.subrange(0, i as int)),
        decreases n - i,
    {
        let c = s.get_char(i);
        match lower_char_str(c) {
            Some(l) => out.append(l),
            None => out.append(s.substring_char(i, i + 1)),
        }
        proof {
            assert(s@.subrange(i as int, i + 1) =~= seq![s@[i as int]]);
            assert(lower_seq(s@.subrange(0, i + 1)) =~= lower_seq(s@.subrange(0, i as int)).push(
                lower_char(s@[i as int]),
            ));
        }
        i = i + 1;
    }
    proof {
        assert(s@.subrange(0, n as int) =~= s@);
    }
    out
}

/// Character-wise equality of two strings.
pub fn str_eq(a: &str, b: &str) -> (r: bool)
    ensures
        r == (a@ == b@),
{
    let na = a.unicode_len();
    let nb = b.unicode_len();
    if na != nb {
        return false;
    }
    let mut i: usize = 0;
    while i < na
        invariant
            i <= na,
            na == a@.len(),
            na == b@.len(),
            forall|j: int| 0 <= j < i ==> a@[j] == b@[j],
        decreases na - i,
    {
        if a.get_char(i) != b.get_char(i) {
            return false;
        }
        i = i + 1;
    }
    proof {
        assert(a@ =~= b@);
    }
    true
}

/// True iff `p` is a prefix of `s`.
pub open spec fn has_prefix(s: Seq<char>, p: Seq<char>) -> bool {
    p.len() <= s.len() && s.subrange(0, p.len() as int) == p
}

/// True iff `p` is a suffix of `s`.
pub open spec fn has_suffix(s: Seq<char>, p: Seq<char>) -> bool {
    p.len() <= s.len() && s.subrange(s.len() - p.len(), s.len() as int) == p
}

pub fn str_starts_with(s: &str, p: &str) -> (r: bool)
    ensures
        r == has_prefix(s@, p@),
{
    let ns = s.unicode_len();
    let np = p.unicode_len();
    if np > ns {
        return false;
    }
    str_eq(s.substring_char(0, np), p)
}

pub fn str_ends_with(s: &str, p: &str) -> (r: bool)
    ensures
        r == has_suffix(s@, p@),
{
    let ns = s.unicode_len();
    let np = p.unicode_len();
    if np > ns {
        return false;
    }
    str_eq(s.substring_char(ns - np, ns), p)
}

/// Index of the first occurrence of `sep` in `s`, where there is one.
pub open spec fn first_sep(s: Seq<char>, sep: char) -> int {
    choose|i: int|
        0 <= i < s.len() && s[i] == sep && (forall|j: int| 0 <= j < i ==> s[j] != sep)
}

/// The pieces of `s` split at every `sep`, in order, separators
/// dropped, empty pieces kept.
#[verifier::opaque]
pub open spec fn split_sep(s: Seq<char>, sep: char) -> Seq<Seq<char>>
    decreases s.len(),
{
    if exists|i: int| 0 <= i < s.len() && s[i] == sep {
        let i = first_sep_index(s, sep);
        if 0 <= i < s.len() {
            seq![s.subrange(0, i)] + split_sep(s.subrange(i + 1, s.len() as int), sep)
        } else {
            seq![s]
        }
    } else {
        seq![s]
    }
}

/// The first occurrence of `sep`, as a total function (`-1` where
/// there is none).
pub open spec fn first_sep_index(s: Seq<char>, sep: char) -> int {
    if exists|i: int| 0 <= i < s.len() && s[i] == sep {
        first_sep(s, sep)
    } else {
        -1
    }
}

proof fn lemma_first_sep(s: Seq<char>, sep: char, i: int)
    requires
        0 <= i < s.len(),
        s[i] == sep,
        forall|j: int| 0 <= j < i ==> s[j] != sep,
    ensures
        first_sep_index(s, sep) == i,
{
    let w = first_sep(s, sep);
    assert(0 <= w < s.len() && s[w] == sep && (forall|j: int| 0 <= j < w ==> s[j] != sep));
    if w < i {
        assert(s[w] != sep);
    }
    if i < w {
        assert(s[i] != sep);
    }
}

/// Splitting off the first piece: where `s[i]` is the first `sep`, the
/// pieces of `s` are `s[..i]` followed by the pieces of `s[i+1..]`.
proof fn lemma_split_sep_step(s: Seq<char>, sep: char, i: int)
    requires
        0 <= i < s.len(),
        s[i] == sep,
        forall|j: int| 0 <= j < i ==> s[j] != sep,
    ensures
        split_sep(s, sep) == seq![s.subrange(0, i)] + split_sep(
            s.subrange(i + 1, s.len() as int),
            sep,
        ),
{
    reveal(split_sep);
    lemma_first_sep(s, sep, i);
}

/// A piece with no separator is one piece.
proof fn lemma_split_sep_whole(s: Seq<char>, sep: char)
    requires
        forall|j: int| 0 <= j < s.len() ==> s[j] != sep,
    ensures
        split_sep(s, sep) == seq![s],
{
    reveal(split_sep);
}

/// Split `s` at every `sep`, keeping empty pieces; a string without the
/// separator is one piece, so the result is never empty.
pub fn split_sep_exec(s: &str, sep: char) -> (r: Vec<String>)
    ensures
        views_of(r@) == split_sep(s@, sep),
{
    let n = s.unicode_len();
    let mut out: Vec<String> = Vec::new();
    let mut start: usize = 0;
    let mut i: usize = 0;
    proof {
        assert(s@.subrange(0, n as int) =~= s@);
        assert(views_of(out@) =~= Seq::<Seq<char>>::empty());
    }
    while i < n
        invariant
            start <= i <= n,
            n == s@.len(),
            forall|j: int| start <= j < i ==> s@[j] != sep,
            split_sep(s@, sep) =~= views_of(out@) + split_sep(
                s@.subrange(start as int, n as int),
                sep,
            ),
        decreases n - i,
    {
        if s.get_char(i) == sep {
            let piece = s.substring_char(start, i);
            proof {
                let t = s@.subrange(start as int, n as int);
                assert(t[(i - start) as int] == sep);
                lemma_split_sep_step(t, sep, (i - start) as int);
                assert(t.subrange(0, (i - start) as int) =~= s@.subrange(start as int, i as int));
                assert(t.subrange((i - start) + 1, t.len() as int) =~= s@.subrange(
                    i + 1,
                    n as int,
                ));
            }
            out.push(piece.to_owned());
            proof {
                assert(views_of(out@) =~= views_of(out@.drop_last()).push(piece@));
            }
            start = i + 1;
        }
        i = i + 1;
    }
    let piece = s.substring_char(start, n);
    proof {
        let t = s@.subrange(start as int, n as int);
        lemma_split_sep_whole(t, sep);
    }
    out.push(piece.to_owned());
    proof {
        assert(views_of(out@) =~= views_of(out@.drop_last()).push(piece@));
        assert(views_of(out@.drop_last()) + seq![piece@] =~= views_of(out@.drop_last()).push(
            piece@,
        ));
    }
    out
}

/// One raw field, trimmed and (when asked) lower-cased.
pub open spec fn clean_field(f: Seq<char>, fold_lower: bool) -> Seq<char> {
    if fold_lower {
        lower_seq(trim_seq(f))
    } else {
        trim_seq(f)
    }
}

/// Trimmed (and optionally lower-cased) non-empty fields of a
/// comma-separated list.
pub open spec fn csv_fields(s: Seq<char>, fold_lower: bool) -> Seq<Seq<char>> {
    split_sep(s, ',').map_values(|f: Seq<char>| clean_field(f, fold_lower)).filter(
        |f: Seq<char>| f.len() > 0,
    )
}

/// The views of a vector of strings.
pub open spec fn views_of(v: Seq<String>) -> Seq<Seq<char>> {
    v.map_values(|x: String| x@)
}

/// Splitting off the first field: where `s[i]` is the first comma,
/// the fields of `s` are the cleaned head field followed by the
/// fields of the rest.
proof fn lemma_csv_split(s: Seq<char>, i: int, fold_lower: bool)
    requires
        0 <= i < s.len(),
        s[i] == ',',
        forall|j: int| 0 <= j < i ==> s[j] != ',',
    ensures
        csv_fields(s, fold_lower) == seq![s.subrange(0, i)].map_values(
            |f: Seq<char>| clean_field(f, fold_lower),
        ).filter(|f: Seq<char>| f.len() > 0) + csv_fields(
            s.subrange(i + 1, s.len() as int),
            fold_lower,
        ),
{
    lemma_split_sep_step(s, ',', i);
    let rest = s.subrange(i + 1, s.len() as int);
    let cl = |f: Seq<char>| clean_field(f, fold_lower);
    let ne = |f: Seq<char>| f.len() > 0;
    assert((seq![s.subrange(0, i)] + split_sep(rest, ',')).map_values(cl) =~= seq![
        s.subrange(0, i),
    ].map_values(cl) + split_sep(rest, ',').map_values(cl));
    Seq::filter_distributes_over_add(
        seq![s.subrange(0, i)].map_values(cl),
        split_sep(rest, ',').map_values(cl),
        ne,
    );
}

/// The fields of a piece with no comma: just the one cleaned field,
/// kept iff non-empty.
proof fn lemma_csv_single(s: Seq<char>, fold_lower: bool)
    requires
        forall|j: int| 0 <= j < s.len() ==> s[j] != ',',
    ensures
        csv_fields(s, fold_lower) == seq![s].map_values(
            |f: Seq<char>| clean_field(f, fold_lower),
        ).filter(|f: Seq<char>| f.len() > 0),
{
    lemma_split_sep_whole(s, ',');
}

/// Push one raw field after cleaning, unless it cleans to empty.
fn push_csv_field(out: &mut Vec<String>, field: &str, fold_lower: bool)
    ensures
        views_of(final(out)@) == views_of(old(out)@) + seq![field@].map_values(
            |f: Seq<char>| clean_field(f, fold_lower),
        ).filter(|f: Seq<char>| f.len() > 0),
{
    let trimmed = trim_ascii(field);
    let cleaned: String = if fold_lower {
        ascii_lowercase(trimmed)
    } else {
        trimmed.to_owned()
    };
    let ghost cl = |f: Seq<char>| clean_field(f, fold_lower);
    let ghost ne = |f: Seq<char>| f.len() > 0;
    proof {
        assert(seq![field@].map_values(cl) =~= seq![clean_field(field@, fold_lower)]);
    }
    if cleaned.as_str().unicode_len() > 0 {
        out.push(cleaned);
        proof {
            assert(seq![clean_field(field@, fold_lower)].filter(ne) =~= seq![
                clean_field(field@, fold_lower),
            ]) by {
                reveal_with_fuel(Seq::filter, 2);
            }
            assert(views_of(out@) =~= views_of(old(out)@) + seq![clean_field(field@, fold_lower)]);
        }
    } else {
        proof {
            assert(seq![clean_field(field@, fold_lower)].filter(ne) =~= Seq::<Seq<char>>::empty())
                by {
                reveal_with_fuel(Seq::filter, 2);
            }
            assert(views_of(out@) =~= views_of(out@) + Seq::<Seq<char>>::empty());
        }
    }
}

/// Split at commas, trim each field, optionally lower-case it, and drop
/// the fields that are then empty.
pub fn split_csv_clean(s: &str, fold_lower: bool) -> (r: Vec<String>)
    ensures
        views_of(r@) == csv_fields(s@, fold_lower),
{
    let n = s.unicode_len();
    let mut out: Vec<String> = Vec::new();
    let mut start: usize = 0;
    let mut i: usize = 0;
    proof {
        assert(s@.subrange(0, n as int) =~= s@);
        assert(views_of(out@) =~= Seq::<Seq<char>>::empty());
    }
    while i < n
        invariant
            start <= i <= n,
            n == s@.len(),
            forall|j: int| start <= j < i ==> s@[j] != ',',
            csv_fields(s@, fold_lower) =~= views_of(out@) + csv_fields(
                s@.subrange(start as int, n as int),
                fold_lower,
            ),
        decreases n - i,
    {
        if s.get_char(i) == ',' {
            let field = s.substring_char(start, i);
            proof {
                let t = s@.subrange(start as int, n as int);
                assert(t[(i - start) as int] == ',');
                lemma_csv_split(t, (i - start) as int, fold_lower);
                assert(t.subrange(0, (i - start) as int) =~= s@.subrange(start as int, i as int));
                assert(t.subrange((i - start) + 1, t.len() as int) =~= s@.subrange(
                    i + 1,
                    n as int,
                ));
            }
            push_csv_field(&mut out, field, fold_lower);
            start = i + 1;
        }
        i = i + 1;
    }
    let field = s.substring_char(start, n);
    proof {
        let t = s@.subrange(start as int, n as int);
        lemma_csv_single(t, fold_lower);
    }
    push_csv_field(&mut out, field, fold_lower);
    out
}

} // verus!
