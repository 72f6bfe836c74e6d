//! IP address model and the private/public classifier.
//!
//! Addresses are held as plain integers so that every range check in the
//! policy is visible to the verifier.

use vstd::prelude::*;
use vstd::string::StrSliceExecFns;

use crate::text::split_sep;
use crate::text::split_sep_exec;
use crate::text::views_of;

verus! {

/// An IP address, v4 as four octets, v6 as eight 16-bit segments.
#[derive(Clone, Copy, Debug, PartialEq, Eq)]
pub enum IpAddress {
    V4 { a: u8, b: u8, c: u8, d: u8 },
    V6 { s: [u16; 8] },
}

/// Classification of an address under the browse policy: private covers
/// loopback, link-local, unique-local and the other non-public ranges.
#[derive(Clone, Copy, Debug, PartialEq, Eq, Structural)]
pub enum IpClass {
    Public,
    Private,
}

/// A v4 address is private iff it lies in 0.0.0.0/8, 10.0.0.0/8,
/// 127.0.0.0/8, 169.254.0.0/16, 172.16.0.0/12, 192.168.0.0/16 or
/// 100.64.0.0/10 (CGNAT).
pub open spec fn spec_v4_is_private(a: u8, b: u8) -> bool {
    ||| a == 0
    ||| a == 10
    ||| a == 127
    ||| (a == 169 && b == 254)
    ||| (a == 172 && 16 <= b <= 31)
    ||| (a == 192 && b == 168)
    ||| (a == 100 && 64 <= b <= 127)
}

/// A v6 address is private iff it is loopback (::1), unspecified (::),
/// unique-local (fc00::/7) or link-local (fe80::/10).  The /7 and /10
/// prefixes are stated as ranges of the first segment.
pub open spec fn spec_v6_is_private(s: Seq<u16>) -> bool {
    ||| s =~= seq![0u16, 0u16, 0u16, 0u16, 0u16, 0u16, 0u16, 1u16]
    ||| s =~= seq![0u16, 0u16, 0u16, 0u16, 0u16, 0u16, 0u16, 0u16]
    ||| 0xfc00 <= s[0] < 0xfe00
    ||| 0xfe80 <= s[0] < 0xfec0
}

pub open spec fn spec_classify(ip: IpAddress) -> IpClass {
    match ip {
        IpAddress::V4 { a, b, c, d } => if spec_v4_is_private(a, b) {
            IpClass::Private
        } else {
            IpClass::Public
        },
        IpAddress::V6 { s } => if spec_v6_is_private(s@) {
            IpClass::Private
        } else {
            IpClass::Public
        },
    }
}

impl IpAddress {
    /// Classify the address; total over the whole address space, with
    /// Public as the default for every range not listed as private.
    pub fn classify(&self) -> (r: IpClass)
        ensures
            r == spec_classify(*self),
    {
        match self {
            IpAddress::V4 { a, b, c: _, d: _ } => {
                let a = *a;
                let b = *b;
                if a == 0 || a == 10 || a == 127 || (a == 169 && b == 254)
                    || (a == 172 && 16 <= b && b <= 31) || (a == 192 && b == 168)
                    || (a == 100 && 64 <= b && b <= 127) {
                    IpClass::Private
                } else {
                    IpClass::Public
                }
            },
            IpAddress::V6 { s } => {
                let mut leading_zero = true;
                let mut i: usize = 0;
                while i < 7
                    invariant
                        i <= 7,
                        leading_zero <==> (forall|j: int| 0 <= j < i ==> s@[j] == 0),
                    decreases 7 - i,
                {
                    if s[i] != 0 {
                        leading_zero = false;
                    }
                    i = i + 1;
                }
                let loopback = leading_zero && s[7] == 1;
                let unspecified = leading_zero && s[7] == 0;
                let unique_local = 0xfc00 <= s[0] && s[0] < 0xfe00;
                let link_local = 0xfe80 <= s[0] && s[0] < 0xfec0;
                if loopback || unspecified || unique_local || link_local {
                    proof {
                        if loopback {
                            assert(s@ =~= seq![0u16, 0u16, 0u16, 0u16, 0u16, 0u16, 0u16, 1u16]);
                        }
                        if unspecified {
                            assert(s@ =~= seq![0u16, 0u16, 0u16, 0u16, 0u16, 0u16, 0u16, 0u16]);
                        }
                    }
                    IpClass::Private
                } else {
                    IpClass::Public
                }
            },
        }
    }

    /// True iff the address classifies as private.
    pub fn is_private(&self) -> (r: bool)
        ensures
            r == (spec_classify(*self) == IpClass::Private),
    {
        self.classify() == IpClass::Private
    }
}

pub open spec fn is_dec(c: char) -> bool {
    '0' <= c && c <= '9'
}

pub open spec fn dec_val(c: char) -> int {
    (c as u32) - 48
}

pub open spec fn is_hex(c: char) -> bool {
    is_dec(c) || ('a' <= c && c <= 'f') || ('A' <= c && c <= 'F')
}

pub open spec fn hex_val(c: char) -> int {
    if is_dec(c) {
        dec_val(c)
    } else if 'a' <= c && c <= 'f' {
        (c as u32) - 87
    } else {
        (c as u32) - 55
    }
}

/// One dotted-quad octet: one to three decimal digits, no leading zero
/// unless the octet is a single digit, value at most 255.
pub open spec fn parse_octet(s: Seq<char>) -> Option<u8> {
    if s.len() == 1 && is_dec(s[0]) {
        Some(dec_val(s[0]) as u8)
    } else if s.len() == 2 && is_dec(s[0]) && is_dec(s[1]) && s[0] != '0' {
        Some((10 * dec_val(s[0]) + dec_val(s[1])) as u8)
    } else if s.len() == 3 && is_dec(s[0]) && is_dec(s[1]) && is_dec(s[2]) && s[0] != '0' && 100
        * dec_val(s[0]) + 10 * dec_val(s[1]) + dec_val(s[2]) <= 255 {
        Some((100 * dec_val(s[0]) + 10 * dec_val(s[1]) + dec_val(s[2])) as u8)
    } else {
        None
    }
}

/// A dotted-quad v4 literal: exactly four octets separated by dots.
pub open spec fn parse_ipv4(s: Seq<char>) -> Option<IpAddress> {
    let parts = split_sep(s, '.');
    if parts.len() == 4 && parse_octet(parts[0]) is Some && parse_octet(parts[1]) is Some
        && parse_octet(parts[2]) is Some && parse_octet(parts[3]) is Some {
        Some(
            IpAddress::V4 {
                a: parse_octet(parts[0])->0,
                b: parse_octet(parts[1])->0,
                c: parse_octet(parts[2])->0,
                d: parse_octet(parts[3])->0,
            },
        )
    } else {
        None
    }
}

/// One v6 group: one to four hex digits.
pub open spec fn parse_group(s: Seq<char>) -> Option<u16> {
    if s.len() == 1 && is_hex(s[0]) {
        Some(hex_val(s[0]) as u16)
    } else if s.len() == 2 && is_hex(s[0]) && is_hex(s[1]) {
        Some((16 * hex_val(s[0]) + hex_val(s[1])) as u16)
    } else if s.len() == 3 && is_hex(s[0]) && is_hex(s[1]) && is_hex(s[2]) {
        Some((256 * hex_val(s[0]) + 16 * hex_val(s[1]) + hex_val(s[2])) as u16)
    } else if s.len() == 4 && is_hex(s[0]) && is_hex(s[1]) && is_hex(s[2]) && is_hex(s[3]) {
        Some((4096 * hex_val(s[0]) + 256 * hex_val(s[1]) + 16 * hex_val(s[2]) + hex_val(
            s[3],
        )) as u16)
    } else {
        None
    }
}

/// All pieces parsed as v6 groups, in order; None where any fails.
pub open spec fn parse_groups(parts: Seq<Seq<char>>) -> Option<Seq<u16>>
    decreases parts.len(),
{
    if parts.len() == 0 {
        Some(Seq::<u16>::empty())
    } else if parse_group(parts[0]) is Some && parse_groups(parts.drop_first()) is Some {
        Some(seq![parse_group(parts[0])->0] + parse_groups(parts.drop_first())->0)
    } else {
        None
    }
}

pub open spec fn dcolon_at(s: Seq<char>, i: int) -> bool {
    0 <= i < s.len() - 1 && s[i] == ':' && s[i + 1] == ':'
}

pub open spec fn has_dcolon(s: Seq<char>) -> bool {
    exists|i: int| dcolon_at(s, i)
}

/// The position of the first `::`, as a total function (`-1` where
/// there is none).
pub open spec fn first_dcolon_index(s: Seq<char>) -> int {
    if has_dcolon(s) {
        choose|i: int| dcolon_at(s, i) && (forall|j: int| 0 <= j < i ==> !dcolon_at(s, j))
    } else {
        -1
    }
}

proof fn lemma_first_dcolon(s: Seq<char>, i: int)
    requires
        dcolon_at(s, i),
        forall|j: int| 0 <= j < i ==> !dcolon_at(s, j),
    ensures
        first_dcolon_index(s) == i,
{
    let w = choose|w: int| dcolon_at(s, w) && (forall|j: int| 0 <= j < w ==> !dcolon_at(s, j));
    assert(dcolon_at(s, w) && (forall|j: int| 0 <= j < w ==> !dcolon_at(s, j)));
    if w < i {
        assert(!dcolon_at(s, w));
    }
    if i < w {
        assert(!dcolon_at(s, i));
    }
}

/// The groups on one side of a `::`: none for the empty side, else
/// every colon-separated piece as a group.
pub open spec fn side_groups(s: Seq<char>) -> Option<Seq<u16>> {
    if s.len() == 0 {
        Some(Seq::<u16>::empty())
    } else {
        parse_groups(split_sep(s, ':'))
    }
}

/// A v6 literal as its eight groups: either eight colon-separated
/// groups, or at most seven around a single `::` that stands for the
/// missing zero groups.
pub open spec fn parse_ipv6_groups(s: Seq<char>) -> Option<Seq<u16>> {
    if has_dcolon(s) {
        let i = first_dcolon_index(s);
        let l = side_groups(s.subrange(0, i));
        let r = side_groups(s.subrange(i + 2, s.len() as int));
        if l is Some && r is Some && l->0.len() + r->0.len() <= 7 {
            Some(
                l->0 + Seq::new((8 - l->0.len() - r->0.len()) as nat, |k: int| 0u16) + r->0,
            )
        } else {
            None
        }
    } else {
        let g = parse_groups(split_sep(s, ':'));
        if g is Some && g->0.len() == 8 {
            g
        } else {
            None
        }
    }
}

/// A v6 literal in brackets, as URL hosts carry it.
pub open spec fn bracketed_v6(h: Seq<char>) -> bool {
    h.len() >= 2 && h[0] == '[' && h[h.len() - 1] == ']'
}

/// Private-range status of a host written as an IP literal: v4 dotted
/// quad, bare v6, or v6 in brackets as URL hosts carry it.  None where
/// the host is not an IP literal.
pub open spec fn host_ip_private(h: Seq<char>) -> Option<bool> {
    if bracketed_v6(h) {
        match parse_ipv6_groups(h.subrange(1, h.len() - 1)) {
            Some(g) => Some(spec_v6_is_private(g)),
            None => None,
        }
    } else if parse_ipv4(h) is Some {
        Some(spec_classify(parse_ipv4(h)->0) == IpClass::Private)
    } else {
        match parse_ipv6_groups(h) {
            Some(g) => Some(spec_v6_is_private(g)),
            None => None,
        }
    }
}

fn dec_digit(c: char) -> (r: Option<u8>)
    ensures
        (r is Some) == is_dec(c),
        r is Some ==> r->0 == dec_val(c) && r->0 <= 9,
{
    let u = c as u32;
    if 48 <= u && u <= 57 {
        Some((u - 48) as u8)
    } else {
        None
    }
}

fn hex_digit(c: char) -> (r: Option<u16>)
    ensures
        (r is Some) == is_hex(c),
        r is Some ==> r->0 == hex_val(c) && r->0 <= 15,
{
    let u = c as u32;
    if 48 <= u && u <= 57 {
        Some((u - 48) as u16)
    } else if 97 <= u && u <= 102 {
        Some((u - 87) as u16)
    } else if 65 <= u && u <= 70 {
        Some((u - 55) as u16)
    } else {
        None
    }
}

fn parse_octet_str(p: &str) -> (r: Option<u8>)
    ensures
        r == parse_octet(p@),
{
    let n = p.unicode_len();
    if n == 1 {
        dec_digit(p.get_char(0))
    } else if n == 2 {
        let c0 = p.get_char(0);
        if c0 == '0' {
            return None;
        }
        match (dec_digit(c0), dec_digit(p.get_char(1))) {
            (Some(d0), Some(d1)) => Some(10 * d0 + d1),
            _ => None,
        }
    } else if n == 3 {
        let c0 = p.get_char(0);
        if c0 == '0' {
            return None;
        }
        match (dec_digit(c0), dec_digit(p.get_char(1)), dec_digit(p.get_char(2))) {
            (Some(d0), Some(d1), Some(d2)) => {
                let v: u16 = 100 * (d0 as u16) + 10 * (d1 as u16) + (d2 as u16);
                if v <= 255 {
                    Some(v as u8)
                } else {
                    None
                }
            },
            _ => None,
        }
    } else {
        None
    }
}

fn parse_group_str(p: &str) -> (r: Option<u16>)
    ensures
        r == parse_group(p@),
{
    let n = p.unicode_len();
    if n == 1 {
        hex_digit(p.get_char(0))
    } else if n == 2 {
        match (hex_digit(p.get_char(0)), hex_digit(p.get_char(1))) {
            (Some(h0), Some(h1)) => Some(16 * h0 + h1),
            _ => None,
        }
    } else if n == 3 {
        match (hex_digit(p.get_char(0)), hex_digit(p.get_char(1)), hex_digit(p.get_char(2))) {
            (Some(h0), Some(h1), Some(h2)) => Some(256 * h0 + 16 * h1 + h2),
            _ => None,
        }
    } else if n == 4 {
        match (
            hex_digit(p.get_char(0)),
            hex_digit(p.get_char(1)),
            hex_digit(p.get_char(2)),
            hex_digit(p.get_char(3)),
        ) {
            (Some(h0), Some(h1), Some(h2), Some(h3)) => Some(
                4096 * h0 + 256 * h1 + 16 * h2 + h3,
            ),
            _ => None,
        }
    } else {
        None
    }
}

fn parse_groups_str(parts: &Vec<String>) -> (r: Option<Vec<u16>>)
    ensures
        r is Some ==> parse_groups(views_of(parts@)) == Some(r->0@),
        r is None ==> parse_groups(views_of(parts@)) is None,
{
    let ghost whole = views_of(parts@);
    let n = parts.len();
    let mut acc: Vec<u16> = Vec::new();
    let mut i: usize = 0;
    proof {
        assert(whole.subrange(0, whole.len() as int) =~= whole);
    }
    while i < n
        invariant
            i <= n,
            n == parts@.len(),
            whole == views_of(parts@),
            acc@.len() == i,
            forall|t: Seq<u16>|
                parse_groups(whole.subrange(i as int, n as int)) == Some(t) ==> parse_groups(whole)
                    == Some(acc@ + t),
            parse_groups(whole.subrange(i as int, n as int)) is None ==> parse_groups(whole)
                is None,
        decreases n - i,
    {
        let ghost tail = whole.subrange(i as int, n as int);
        match parse_group_str(parts[i].as_str()) {
            Some(g) => {
                let ghost acc0 = acc@;
                acc.push(g);
                proof {
                    assert(tail[0] == whole[i as int]);
                    assert(tail.drop_first() =~= whole.subrange(i + 1, n as int));
                    assert(parse_group(tail[0]) == Some(g));
                    assert forall|t: Seq<u16>|
                        parse_groups(whole.subrange(i + 1, n as int)) == Some(t) implies
                        parse_groups(whole) == Some(acc@ + t) by {
                        assert(parse_groups(tail.drop_first()) == Some(t));
                        assert(parse_groups(tail) == Some(seq![g] + t));
                        assert(parse_groups(whole) == Some(acc0 + (seq![g] + t)));
                        assert(acc0 + (seq![g] + t) =~= acc@ + t);
                    }
                    if parse_groups(whole.subrange(i + 1, n as int)) is None {
                        assert(parse_groups(tail) is None);
                    }
                }
                i = i + 1;
            },
            None => {
                proof {
                    assert(tail[0] == whole[i as int]);
                    assert(parse_groups(tail) is None);
                }
                return None;
            },
        }
    }
    proof {
        assert(whole.subrange(n as int, n as int) =~= Seq::<Seq<char>>::empty());
        assert(parse_groups(Seq::<Seq<char>>::empty()) == Some(Seq::<u16>::empty()));
        assert(acc@ + Seq::<u16>::empty() =~= acc@);
    }
    Some(acc)
}

/// The groups of one side of a `::`.
fn parse_side(side: &str) -> (r: Option<Vec<u16>>)
    ensures
        r is Some ==> side_groups(side@) == Some(r->0@),
        r is None ==> side_groups(side@) is None,
{
    if side.unicode_len() == 0 {
        let empty: Vec<u16> = Vec::new();
        proof {
            assert(empty@ =~= Seq::<u16>::empty());
        }
        Some(empty)
    } else {
        let parts = split_sep_exec(side, ':');
        parse_groups_str(&parts)
    }
}

/// Parse a v6 literal (without brackets).
fn parse_ipv6_literal(h: &str) -> (r: Option<IpAddress>)
    ensures
        (r is Some) == (parse_ipv6_groups(h@) is Some),
        r matches Some(ip) ==> (ip matches IpAddress::V6 { s: arr } && arr@
            == parse_ipv6_groups(h@)->0),
{
    let n = h.unicode_len();
    let lim: usize = if n >= 1 {
        n - 1
    } else {
        0
    };
    let mut found = false;
    let mut i: usize = 0;
    while i < lim && !found
        invariant
            i <= lim,
            n == h@.len(),
            lim == if n >= 1 { (n - 1) as int } else { 0 },
            !found ==> forall|j: int| 0 <= j < i ==> !dcolon_at(h@, j),
            found ==> dcolon_at(h@, i as int) && (forall|j: int|
                0 <= j < i ==> !dcolon_at(h@, j)),
        decreases lim - i + (if found { 0int } else { 1int }),
    {
        if h.get_char(i) == ':' && h.get_char(i + 1) == ':' {
            found = true;
        } else {
            i = i + 1;
        }
    }
    let dc: Option<usize> = if found {
        proof {
            lemma_first_dcolon(h@, i as int);
        }
        Some(i)
    } else {
        None
    };
    proof {
        if !found {
            assert(!has_dcolon(h@));
        }
    }
    match dc {
        Some(k) => {
            let left = h.substring_char(0, k);
            let right = h.substring_char(k + 2, n);
            let lg = match parse_side(left) {
                Some(v) => v,
                None => {
                    return None;
                },
            };
            let rg = match parse_side(right) {
                Some(v) => v,
                None => {
                    return None;
                },
            };
            if lg.len() > 7 || rg.len() > 7 || lg.len() + rg.len() > 7 {
                return None;
            }
            let fill: usize = 8 - lg.len() - rg.len();
            let mut groups: Vec<u16> = Vec::new();
            let mut a: usize = 0;
            while a < lg.len()
                invariant
                    a <= lg@.len(),
                    groups@ =~= lg@.subrange(0, a as int),
                decreases lg@.len() - a,
            {
                groups.push(lg[a]);
                a = a + 1;
            }
            let mut z: usize = 0;
            while z < fill
                invariant
                    z <= fill,
                    groups@ =~= lg@ + Seq::new(z as nat, |k: int| 0u16),
                decreases fill - z,
            {
                groups.push(0);
                proof {
                    assert(lg@ + Seq::new((z + 1) as nat, |k: int| 0u16) =~= (lg@ + Seq::new(
                        z as nat,
                        |k: int| 0u16,
                    )).push(0u16));
                }
                z = z + 1;
            }
            let mut b: usize = 0;
            while b < rg.len()
                invariant
                    b <= rg@.len(),
                    groups@ =~= lg@ + Seq::new(fill as nat, |k: int| 0u16) + rg@.subrange(
                        0,
                        b as int,
                    ),
                    fill == 8 - lg@.len() - rg@.len(),
                decreases rg@.len() - b,
            {
                groups.push(rg[b]);
                proof {
                    assert(lg@ + Seq::new(fill as nat, |k: int| 0u16) + rg@.subrange(0, b + 1)
                        =~= (lg@ + Seq::new(fill as nat, |k: int| 0u16) + rg@.subrange(
                        0,
                        b as int,
                    )).push(rg@[b as int]));
                }
                b = b + 1;
            }
            proof {
                assert(rg@.subrange(0, rg@.len() as int) =~= rg@);
                assert(left@ =~= h@.subrange(0, k as int));
                assert(right@ =~= h@.subrange(k + 2, n as int));
            }
            let arr: [u16; 8] = [
                groups[0],
                groups[1],
                groups[2],
                groups[3],
                groups[4],
                groups[5],
                groups[6],
                groups[7],
            ];
            proof {
                assert(arr@ =~= groups@);
            }
            Some(IpAddress::V6 { s: arr })
        },
        None => {
            proof {
                assert(!has_dcolon(h@));
            }
            let parts = split_sep_exec(h, ':');
            let groups = match parse_groups_str(&parts) {
                Some(v) => v,
                None => {
                    return None;
                },
            };
            if groups.len() != 8 {
                return None;
            }
            let arr: [u16; 8] = [
                groups[0],
                groups[1],
                groups[2],
                groups[3],
                groups[4],
                groups[5],
                groups[6],
                groups[7],
            ];
            proof {
                assert(arr@ =~= groups@);
            }
            Some(IpAddress::V6 { s: arr })
        },
    }
}

/// Parse a v4 dotted-quad literal.
fn parse_ipv4_literal(h: &str) -> (r: Option<IpAddress>)
    ensures
        r == parse_ipv4(h@),
{
    let parts = split_sep_exec(h, '.');
    if parts.len() != 4 {
        return None;
    }
    let a = match parse_octet_str(parts[0].as_str()) {
        Some(v) => v,
        None => {
            return None;
        },
    };
    let b = match parse_octet_str(parts[1].as_str()) {
        Some(v) => v,
        None => {
            return None;
        },
    };
    let c = match parse_octet_str(parts[2].as_str()) {
        Some(v) => v,
        None => {
            return None;
        },
    };
    let d = match parse_octet_str(parts[3].as_str()) {
        Some(v) => v,
        None => {
            return None;
        },
    };
    Some(IpAddress::V4 { a, b, c, d })
}

/// Parse a host written as an IP literal: dotted quad, bare v6, or v6
/// in brackets as URL hosts carry it.  None where the host is a name.
pub fn parse_ip_literal(h: &str) -> (r: Option<IpAddress>)
    ensures
        (r is Some) == (host_ip_private(h@) is Some),
        r matches Some(ip) ==> host_ip_private(h@) == Some(
            spec_classify(ip) == IpClass::Private,
        ),
        (bracketed_v6(h@) ==> (r matches Some(ip) ==> (ip matches IpAddress::V6 { s: g } && g@
            == parse_ipv6_groups(h@.subrange(1, h@.len() - 1))->0))),
        ((!bracketed_v6(h@) && parse_ipv4(h@) is Some) ==> r == parse_ipv4(h@)),
        ((!bracketed_v6(h@) && parse_ipv4(h@) is None) ==> (r matches Some(ip) ==> (
        ip matches IpAddress::V6 { s: g } && g@ == parse_ipv6_groups(h@)->0))),
{
    let n = h.unicode_len();
    if n >= 2 && h.get_char(0) == '[' && h.get_char(n - 1) == ']' {
        let inner = h.substring_char(1, n - 1);
        proof {
            assert(inner@ =~= h@.subrange(1, h@.len() - 1));
        }
        parse_ipv6_literal(inner)
    } else if let Some(ip) = parse_ipv4_literal(h) {
        Some(ip)
    } else {
        parse_ipv6_literal(h)
    }
}

} // verus!
