//! The content sanitizer: removal of `<style>...</style>` and
//! `<script>...</script>` blocks before Markdown rendering.
//!
//! A block starts at a case-insensitive `<tag`, runs through the first
//! `>` that closes the opening tag (attributes may stand in between, but
//! no `>`), and ends at the first case-insensitive `</tag>` after that;
//! its content may span lines.  Blocks are removed leftmost-first and
//! without overlap; an opening tag that is never closed is left as it
//! stands.

use vstd::prelude::*;
use vstd::string::StrSliceExecFns;
use vstd::string::StringExecFns;

use crate::text::lower_seq;
use crate::text::ascii_lowercase;
use crate::text::str_eq;

verus! {

/// A case-insensitive `<tag` stands at `i`.
pub open spec fn tag_open_at(s: Seq<char>, tag: Seq<char>, i: int) -> bool {
    &&& 0 <= i
    &&& i + 1 + tag.len() <= s.len()
    &&& s[i] == '<'
    &&& lower_seq(s.subrange(i + 1, i + 1 + tag.len())) == tag
}

/// A case-insensitive `</tag>` stands at `q`.
pub open spec fn tag_close_at(s: Seq<char>, tag: Seq<char>, q: int) -> bool {
    &&& 0 <= q
    &&& q + 3 + tag.len() <= s.len()
    &&& s[q] == '<'
    &&& s[q + 1] == '/'
    &&& lower_seq(s.subrange(q + 2, q + 2 + tag.len())) == tag
    &&& s[q + 2 + tag.len()] == '>'
}

/// The first `>` at or after `a`, or `-1` where there is none.
pub open spec fn gt_from(s: Seq<char>, a: int) -> int {
    if exists|k: int|
        a <= k < s.len() && s[k] == '>' && (forall|j: int| a <= j < k ==> s[j] != '>') {
        choose|k: int|
            a <= k < s.len() && s[k] == '>' && (forall|j: int| a <= j < k ==> s[j] != '>')
    } else {
        -1
    }
}

/// The first `</tag>` starting at or after `a`, or `-1`.
pub open spec fn close_from(s: Seq<char>, tag: Seq<char>, a: int) -> int {
    if exists|q: int|
        a <= q && tag_close_at(s, tag, q) && (forall|j: int|
            a <= j < q ==> !tag_close_at(s, tag, j)) {
        choose|q: int|
            a <= q && tag_close_at(s, tag, q) && (forall|j: int|
                a <= j < q ==> !tag_close_at(s, tag, j))
    } else {
        -1
    }
}

/// Where a whole block (opening tag, content, closing tag) starts at
/// `i`: the index just past its closing tag.  `-1` where no block
/// starts at `i`.
#[verifier::opaque]
pub open spec fn match_end(s: Seq<char>, tag: Seq<char>, i: int) -> int {
    if tag_open_at(s, tag, i) {
        let k = gt_from(s, i + 1 + tag.len());
        if k >= 0 {
            let q = close_from(s, tag, k + 1);
            if q > i {
                q + 3 + tag.len()
            } else {
                -1
            }
        } else {
            -1
        }
    } else {
        -1
    }
}

/// The text from position `i` on, with every `tag` block removed,
/// scanning left to right and never overlapping.
pub open spec fn strip_from(s: Seq<char>, tag: Seq<char>, i: int) -> Seq<char>
    decreases s.len() - i,
{
    if !(0 <= i < s.len()) {
        Seq::<char>::empty()
    } else {
        let e = match_end(s, tag, i);
        if i < e <= s.len() {
            strip_from(s, tag, e)
        } else {
            seq![s[i]] + strip_from(s, tag, i + 1)
        }
    }
}

/// The whole text with every `tag` block removed.
pub open spec fn strip_blocks(s: Seq<char>, tag: Seq<char>) -> Seq<char> {
    strip_from(s, tag, 0)
}

/// What the sanitizer produces: style blocks removed first, then
/// script blocks removed from the result.
pub open spec fn spec_sanitize(h: Seq<char>) -> Seq<char> {
    strip_blocks(strip_blocks(h, "style"@), "script"@)
}

proof fn lemma_gt_from(s: Seq<char>, a: int, k: int)
    requires
        a <= k < s.len(),
        s[k] == '>',
        forall|j: int| a <= j < k ==> s[j] != '>',
    ensures
        gt_from(s, a) == k,
{
    let w = choose|w: int|
        a <= w < s.len() && s[w] == '>' && (forall|j: int| a <= j < w ==> s[j] != '>');
    assert(a <= w < s.len() && s[w] == '>' && (forall|j: int| a <= j < w ==> s[j] != '>'));
    if w < k {
        assert(s[w] != '>');
    }
    if k < w {
        assert(s[k] != '>');
    }
}

proof fn lemma_no_gt_from(s: Seq<char>, a: int)
    requires
        forall|j: int| a <= j < s.len() ==> s[j] != '>',
    ensures
        gt_from(s, a) == -1,
{
    if exists|k: int|
        a <= k < s.len() && s[k] == '>' && (forall|j: int| a <= j < k ==> s[j] != '>') {
        let k = choose|k: int|
            a <= k < s.len() && s[k] == '>' && (forall|j: int| a <= j < k ==> s[j] != '>');
        assert(s[k] != '>');
    }
}

proof fn lemma_close_from(s: Seq<char>, tag: Seq<char>, a: int, q: int)
    requires
        a <= q,
        tag_close_at(s, tag, q),
        forall|j: int| a <= j < q ==> !tag_close_at(s, tag, j),
    ensures
        close_from(s, tag, a) == q,
{
    let w = choose|w: int|
        a <= w && tag_close_at(s, tag, w) && (forall|j: int|
            a <= j < w ==> !tag_close_at(s, tag, j));
    assert(a <= w && tag_close_at(s, tag, w) && (forall|j: int|
        a <= j < w ==> !tag_close_at(s, tag, j)));
    if w < q {
        assert(!tag_close_at(s, tag, w));
    }
    if q < w {
        assert(!tag_close_at(s, tag, q));
    }
}

proof fn lemma_no_close_from(s: Seq<char>, tag: Seq<char>, a: int)
    requires
        forall|j: int| a <= j ==> !tag_close_at(s, tag, j),
    ensures
        close_from(s, tag, a) == -1,
{
    if exists|q: int|
        a <= q && tag_close_at(s, tag, q) && (forall|j: int|
            a <= j < q ==> !tag_close_at(s, tag, j)) {
        let q = choose|q: int|
            a <= q && tag_close_at(s, tag, q) && (forall|j: int|
                a <= j < q ==> !tag_close_at(s, tag, j));
        assert(!tag_close_at(s, tag, q));
    }
}

/// Does a case-insensitive `<tag` stand at `i`?
fn is_open_at(s: &str, tag: &str, i: usize) -> (r: bool)
    requires
        i < s@.len(),
    ensures
        r == tag_open_at(s@, tag@, i as int),
{
    let n = s.unicode_len();
    let tl = tag.unicode_len();
    if n - i < 1 || n - i - 1 < tl {
        return false;
    }
    if s.get_char(i) != '<' {
        return false;
    }
    let seg = s.substring_char(i + 1, i + 1 + tl);
    let seg_lc = ascii_lowercase(seg);
    str_eq(seg_lc.as_str(), tag)
}

/// Does a case-insensitive `</tag>` stand at `q`?
fn is_close_at(s: &str, tag: &str, q: usize) -> (r: bool)
    requires
        q < s@.len(),
    ensures
        r == tag_close_at(s@, tag@, q as int),
{
    let n = s.unicode_len();
    let tl = tag.unicode_len();
    if n - q < 3 || n - q - 3 < tl {
        return false;
    }
    if s.get_char(q) != '<' || s.get_char(q + 1) != '/' {
        return false;
    }
    if s.get_char(q + 2 + tl) != '>' {
        return false;
    }
    let seg = s.substring_char(q + 2, q + 2 + tl);
    let seg_lc = ascii_lowercase(seg);
    str_eq(seg_lc.as_str(), tag)
}

/// The first `>` at or after `a`.
fn find_gt(s: &str, a: usize) -> (r: Option<usize>)
    requires
        a <= s@.len(),
    ensures
        r matches Some(k) ==> gt_from(s@, a as int) == k as int,
        r is None ==> gt_from(s@, a as int) == -1,
{
    let n = s.unicode_len();
    let mut k = a;
    while k < n
        invariant
            a <= k <= n,
            n == s@.len(),
            forall|j: int| a <= j < k ==> s@[j] != '>',
        decreases n - k,
    {
        if s.get_char(k) == '>' {
            proof {
                lemma_gt_from(s@, a as int, k as int);
            }
            return Some(k);
        }
        k = k + 1;
    }
    proof {
        lemma_no_gt_from(s@, a as int);
    }
    None
}

/// The first `</tag>` starting at or after `a`.
fn find_close(s: &str, tag: &str, a: usize) -> (r: Option<usize>)
    requires
        a <= s@.len(),
    ensures
        r matches Some(q) ==> close_from(s@, tag@, a as int) == q as int,
        r is None ==> close_from(s@, tag@, a as int) == -1,
{
    let n = s.unicode_len();
    let mut q = a;
    while q < n
        invariant
            a <= q <= n,
            n == s@.len(),
            forall|j: int| a <= j < q ==> !tag_close_at(s@, tag@, j),
        decreases n - q,
    {
        if is_close_at(s, tag, q) {
            proof {
                lemma_close_from(s@, tag@, a as int, q as int);
            }
            return Some(q);
        }
        q = q + 1;
    }
    proof {
        assert forall|j: int| a as int <= j implies !tag_close_at(s@, tag@, j) by {
            if tag_close_at(s@, tag@, j) {
                assert(j < s@.len());
            }
        }
        lemma_no_close_from(s@, tag@, a as int);
    }
    None
}

/// Where a block starts at `i`, the index just past its closing tag.
fn match_end_exec(s: &str, tag: &str, i: usize) -> (r: Option<usize>)
    requires
        i < s@.len(),
    ensures
        r matches Some(e) ==> match_end(s@, tag@, i as int) == e as int && i < e <= s@.len(),
        r is None ==> match_end(s@, tag@, i as int) == -1,
{
    proof {
        reveal(match_end);
    }
    if !is_open_at(s, tag, i) {
        return None;
    }
    let n = s.unicode_len();
    let tl = tag.unicode_len();
    proof {
        assert(i as int + 1 + tag@.len() <= s@.len());
    }
    let k = match find_gt(s, i + 1 + tl) {
        Some(k) => k,
        None => {
            return None;
        },
    };
    let q = match find_close(s, tag, k + 1) {
        Some(q) => q,
        None => {
            return None;
        },
    };
    Some(q + 3 + tl)
}

/// Remove every `tag` block from `s`.
fn strip_one_tag(s: &str, tag: &str) -> (out: String)
    ensures
        out@ == strip_blocks(s@, tag@),
{
    let n = s.unicode_len();
    let mut out = String::new();
    let mut i: usize = 0;
    while i < n
        invariant
            i <= n,
            n == s@.len(),
            strip_from(s@, tag@, 0) =~= out@ + strip_from(s@, tag@, i as int),
        decreases n - i,
    {
        match match_end_exec(s, tag, i) {
            Some(e) => {
                proof {
                    assert(strip_from(s@, tag@, i as int) == strip_from(s@, tag@, e as int));
                }
                i = e;
            },
            None => {
                out.append(s.substring_char(i, i + 1));
                proof {
                    assert(s@.subrange(i as int, i + 1) =~= seq![s@[i as int]]);
                    assert(strip_from(s@, tag@, i as int) == seq![s@[i as int]] + strip_from(
                        s@,
                        tag@,
                        i + 1,
                    ));
                }
                i = i + 1;
            },
        }
    }
    proof {
        assert(strip_from(s@, tag@, n as int) =~= Seq::<char>::empty());
        assert(out@ + Seq::<char>::empty() =~= out@);
    }
    out
}

/// Remove all style and script blocks, so that stylesheet noise and
/// script payloads never reach the Markdown converter or the caller.
pub fn strip_styles_and_scripts(html: &str) -> (r: String)
    ensures
        r@ == spec_sanitize(html@),
{
    let without_styles = strip_one_tag(html, "style");
    strip_one_tag(without_styles.as_str(), "script")
}

} // verus!
