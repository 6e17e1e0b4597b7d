//! Small pieces of SVG/CSS text handling: escaping text placed in an XML
//! comment, looking a property up in a `style` attribute, and reading the id
//! of a `url(#id)` paint reference.

use vstd::prelude::*;
use crate::text_util::{
    chars_of, find, find_from, is_white_space, is_whitespace, lemma_find_from_some, push_char,
    string_of,
};

verus! {

broadcast use vstd::string::group_string_axioms;

// ---------------------------------------------------------------------------
// XML comments
// ---------------------------------------------------------------------------

/// `cs` with each `--` pair, taken left to right without overlap, replaced
/// by `- -`. A run of three dashes becomes `- --`: the pass does not look
/// again at what it wrote, so a double dash can remain.
pub open spec fn escape_dashes(cs: Seq<char>) -> Seq<char>
    decreases cs.len(),
{
    if cs.len() == 0 {
        seq![]
    } else if cs.len() >= 2 && cs[0] == '-' && cs[1] == '-' {
        seq!['-', ' ', '-'] + escape_dashes(cs.subrange(2, cs.len() as int))
    } else {
        seq![cs[0]] + escape_dashes(cs.subrange(1, cs.len() as int))
    }
}

/// Break up the `--` pairs of text bound for an XML comment, pair by pair
/// from the left (see `escape_dashes`).
pub fn xml_comment_escape(s: &str) -> (out: String)
    ensures
        out@ == escape_dashes(s@),
{
    let cs = chars_of(s);
    let n = cs.len();
    let mut out = String::new();
    let mut i: usize = 0;
    assert(cs@.subrange(0, n as int) =~= cs@);
    while i < n
        invariant
            n == cs@.len(),
            i <= n,
            out@ + escape_dashes(cs@.subrange(i as int, n as int)) == escape_dashes(cs@),
        decreases n - i,
    {
        let ghost rest = cs@.subrange(i as int, n as int);
        if i + 1 < n && cs[i] == '-' && cs[i + 1] == '-' {
            push_char(&mut out, '-');
            push_char(&mut out, ' ');
            push_char(&mut out, '-');
            proof {
                assert(rest.subrange(2, rest.len() as int) =~= cs@.subrange(i + 2, n as int));
                assert(out@ + escape_dashes(cs@.subrange(i + 2, n as int)) =~= escape_dashes(cs@));
            }
            i = i + 2;
        } else {
            push_char(&mut out, cs[i]);
            proof {
                assert(rest.subrange(1, rest.len() as int) =~= cs@.subrange(i + 1, n as int));
                assert(out@ + escape_dashes(cs@.subrange(i + 1, n as int)) =~= escape_dashes(cs@));
            }
            i = i + 1;
        }
    }
    assert(out@ =~= escape_dashes(cs@));
    out
}

// ---------------------------------------------------------------------------
// Trimming
// ---------------------------------------------------------------------------

/// The number of white-space characters at the start of `cs`.
pub open spec fn lead_ws(cs: Seq<char>) -> int
    decreases cs.len(),
{
    if cs.len() > 0 && is_white_space(cs[0]) {
        1 + lead_ws(cs.subrange(1, cs.len() as int))
    } else {
        0
    }
}

/// The number of white-space characters at the end of `cs`.
pub open spec fn trail_ws(cs: Seq<char>) -> int
    decreases cs.len(),
{
    if cs.len() > 0 && is_white_space(cs.last()) {
        1 + trail_ws(cs.drop_last())
    } else {
        0
    }
}

/// `cs` without white space at either end (`str::trim`).
pub open spec fn trim(cs: Seq<char>) -> Seq<char> {
    let a = lead_ws(cs);
    let rest = cs.subrange(a, cs.len() as int);
    rest.subrange(0, rest.len() - trail_ws(rest))
}

proof fn lemma_lead_ws_bound(cs: Seq<char>)
    ensures
        0 <= lead_ws(cs) <= cs.len(),
    decreases cs.len(),
{
    if cs.len() > 0 && is_white_space(cs[0]) {
        lemma_lead_ws_bound(cs.subrange(1, cs.len() as int));
    }
}

proof fn lemma_trail_ws_bound(cs: Seq<char>)
    ensures
        0 <= trail_ws(cs) <= cs.len(),
    decreases cs.len(),
{
    if cs.len() > 0 && is_white_space(cs.last()) {
        lemma_trail_ws_bound(cs.drop_last());
    }
}

/// The bounds of `trim(cs[from..to])` within `cs`.
pub(crate) fn trim_bounds(cs: &[char], from: usize, to: usize) -> (r: (usize, usize))
    requires
        from <= to <= cs@.len(),
    ensures
        from <= r.0 <= r.1 <= to,
        cs@.subrange(r.0 as int, r.1 as int) == trim(cs@.subrange(from as int, to as int)),
{
    let ghost s = cs@.subrange(from as int, to as int);
    let mut a = from;
    while a < to && is_whitespace(cs[a])
        invariant
            from <= a <= to <= cs@.len(),
            lead_ws(s) == (a - from) + lead_ws(cs@.subrange(a as int, to as int)),
        decreases to - a,
    {
        proof {
            let t = cs@.subrange(a as int, to as int);
            assert(t.subrange(1, t.len() as int) =~= cs@.subrange(a + 1, to as int));
        }
        a = a + 1;
    }
    proof {
        assert(s.subrange(0, 0) =~= s.subrange(0, 0));
        assert(lead_ws(cs@.subrange(a as int, to as int)) == 0);
        assert(s.subrange(a - from, s.len() as int) =~= cs@.subrange(a as int, to as int));
    }
    let ghost rest = cs@.subrange(a as int, to as int);
    let mut b = to;
    while b > a && is_whitespace(cs[b - 1])
        invariant
            from <= a <= b <= to <= cs@.len(),
            rest == cs@.subrange(a as int, to as int),
            trail_ws(rest) == (to - b) + trail_ws(cs@.subrange(a as int, b as int)),
        decreases b - a,
    {
        proof {
            let t = cs@.subrange(a as int, b as int);
            assert(t.drop_last() =~= cs@.subrange(a as int, b - 1));
        }
        b = b - 1;
    }
    proof {
        assert(trail_ws(cs@.subrange(a as int, b as int)) == 0);
        assert(rest.subrange(0, rest.len() - trail_ws(rest)) =~= cs@.subrange(a as int, b as int));
    }
    (a, b)
}

// ---------------------------------------------------------------------------
// style="name: value; ..."
// ---------------------------------------------------------------------------

/// The value a `style` attribute text gives the property `name`: the
/// declarations are the `;`-separated pieces; the first whose key (the text
/// before its first `:`, trimmed) is `name` decides: its trimmed value (the
/// text after that `:`), or `None` when it has no `:`. `None` when no key matches.
pub open spec fn spec_style_lookup(style: Seq<char>, name: Seq<char>) -> Option<Seq<char>>
    decreases style.len(),
{
    let semi = find_from(style, seq![';'], 0);
    let decl = match semi {
        Some(j) => style.subrange(0, j),
        None => style,
    };
    let colon = find_from(decl, seq![':'], 0);
    let key = match colon {
        Some(c) => decl.subrange(0, c),
        None => decl,
    };
    if trim(key) == name {
        match colon {
            Some(c) => Some(trim(decl.subrange(c + 1, decl.len() as int))),
            None => None,
        }
    } else {
        match semi {
            Some(j) => if 0 <= j < style.len() {
                spec_style_lookup(style.subrange(j + 1, style.len() as int), name)
            } else {
                None
            },
            None => None,
        }
    }
}

pub(crate) fn chars_eq(a: &[char], b: &[char]) -> (r: bool)
    ensures
        r == (a@ == b@),
{
    if a.len() != b.len() {
        return false;
    }
    let mut i: usize = 0;
    while i < a.len()
        invariant
            a@.len() == b@.len(),
            i <= a@.len(),
            forall|k: int| 0 <= k < i ==> a@[k] == b@[k],
        decreases a@.len() - i,
    {
        if a[i] != b[i] {
            return false;
        }
        i = i + 1;
    }
    assert(a@ =~= b@);
    true
}

/// Look a property up in a `style` attribute text.
pub fn style_lookup(style: &str, name: &str) -> (r: Option<String>)
    ensures
        match spec_style_lookup(style@, name@) {
            Some(v) => r matches Some(s) && s@ == v,
            None => r is None,
        },
{
    let cs = chars_of(style);
    let nm = chars_of(name);
    let n = cs.len();
    let semi_pat = vec![';'];
    let colon_pat = vec![':'];
    let mut start: usize = 0;
    assert(cs@.subrange(0, n as int) =~= cs@);
    loop
        invariant
            n == cs@.len(),
            start <= n,
            semi_pat@ == seq![';'],
            colon_pat@ == seq![':'],
            spec_style_lookup(style@, name@) == spec_style_lookup(
                cs@.subrange(start as int, n as int),
                nm@,
            ),
        decreases n - start,
    {
        let ghost s = cs@.subrange(start as int, n as int);
        let rest = vstd::slice::slice_subrange(cs.as_slice(), start, n);
        assert(rest@ == s);
        let semi = find(rest, semi_pat.as_slice(), 0);
        proof {
            lemma_find_from_some(s, seq![';'], 0);
        }
        let decl_end = match semi {
            Some(j) => j,
            None => rest.len(),
        };
        let decl = vstd::slice::slice_subrange(rest, 0, decl_end);
        let colon = find(decl, colon_pat.as_slice(), 0);
        proof {
            lemma_find_from_some(decl@, seq![':'], 0);
        }
        let key_end = match colon {
            Some(c) => c,
            None => decl.len(),
        };
        let (ka, kb) = trim_bounds(decl, 0, key_end);
        proof {
            assert(decl@.subrange(0, decl@.len() as int) =~= decl@);
        }
        let key = vstd::slice::slice_subrange(decl, ka, kb);
        proof {
            let sd = match find_from(s, seq![';'], 0) {
                Some(j) => s.subrange(0, j),
                None => s,
            };
            assert(decl@ == sd);
            let sk = match find_from(sd, seq![':'], 0) {
                Some(c) => sd.subrange(0, c),
                None => sd,
            };
            assert(decl@.subrange(0, key_end as int) == sk);
            assert(key@ == trim(sk));
        }
        if chars_eq(key, nm.as_slice()) {
            match colon {
                Some(c) => {
                    let (va, vb) = trim_bounds(decl, c + 1, decl.len());
                    return Some(string_of(decl, va, vb));
                },
                None => {
                    return None;
                },
            }
        }
        match semi {
            Some(j) => {
                proof {
                    assert(s.subrange(j + 1, s.len() as int) =~= cs@.subrange(start + j + 1, n as int));
                }
                start = start + j + 1;
            },
            None => {
                return None;
            },
        }
    }
}

// ---------------------------------------------------------------------------
// url(#id)
// ---------------------------------------------------------------------------

pub open spec fn is_quote(c: char) -> bool {
    c == '"' || c == '\''
}

/// The number of quote characters at the start of `cs`.
pub open spec fn lead_quotes(cs: Seq<char>) -> int
    decreases cs.len(),
{
    if cs.len() > 0 && is_quote(cs[0]) {
        1 + lead_quotes(cs.subrange(1, cs.len() as int))
    } else {
        0
    }
}

/// The number of quote characters at the end of `cs`.
pub open spec fn trail_quotes(cs: Seq<char>) -> int
    decreases cs.len(),
{
    if cs.len() > 0 && is_quote(cs.last()) {
        1 + trail_quotes(cs.drop_last())
    } else {
        0
    }
}

/// `cs` without quote characters at either end (`trim_matches` with `"` and `'`).
pub open spec fn trim_quotes(cs: Seq<char>) -> Seq<char> {
    let a = lead_quotes(cs);
    if a >= cs.len() {
        seq![]
    } else {
        let rest = cs.subrange(a, cs.len() as int);
        rest.subrange(0, rest.len() - trail_quotes(rest))
    }
}

/// The id named by a paint reference `url(#id)`, `url('#id')` or `url("#id")`:
/// after `url(` (leading white space aside), the text up to the first `)`,
/// trimmed, without quotes at either end and without one leading `#`; `None`
/// when the value does not start with `url(`.
pub open spec fn spec_paint_ref_id(v: Seq<char>) -> Option<Seq<char>> {
    let t = trim(v);
    let prefix = seq!['u', 'r', 'l', '('];
    if t.len() < 4 || t.subrange(0, 4) != prefix {
        None
    } else {
        let rest = t.subrange(4, t.len() as int);
        let inside = match find_from(rest, seq![')'], 0) {
            Some(k) => rest.subrange(0, k),
            None => rest,
        };
        let unq = trim_quotes(trim(inside));
        Some(
            if unq.len() > 0 && unq[0] == '#' {
                unq.subrange(1, unq.len() as int)
            } else {
                unq
            },
        )
    }
}

fn is_quote_char(c: char) -> (b: bool)
    ensures
        b == is_quote(c),
{
    c == '"' || c == '\''
}

/// The bounds of `trim_quotes(cs[from..to])` within `cs`.
pub(crate) fn trim_quote_bounds(cs: &[char], from: usize, to: usize) -> (r: (usize, usize))
    requires
        from <= to <= cs@.len(),
    ensures
        from <= r.0 <= r.1 <= to,
        cs@.subrange(r.0 as int, r.1 as int) == trim_quotes(cs@.subrange(from as int, to as int)),
{
    let ghost s = cs@.subrange(from as int, to as int);
    let mut a = from;
    while a < to && is_quote_char(cs[a])
        invariant
            from <= a <= to <= cs@.len(),
            lead_quotes(s) == (a - from) + lead_quotes(cs@.subrange(a as int, to as int)),
        decreases to - a,
    {
        proof {
            let t = cs@.subrange(a as int, to as int);
            assert(t.subrange(1, t.len() as int) =~= cs@.subrange(a + 1, to as int));
        }
        a = a + 1;
    }
    if a >= to {
        assert(cs@.subrange(a as int, a as int) =~= trim_quotes(s));
        return (a, a);
    }
    proof {
        assert(lead_quotes(cs@.subrange(a as int, to as int)) == 0);
        assert(s.subrange(a - from, s.len() as int) =~= cs@.subrange(a as int, to as int));
    }
    let ghost rest = cs@.subrange(a as int, to as int);
    let mut b = to;
    while b > a && is_quote_char(cs[b - 1])
        invariant
            from <= a <= b <= to <= cs@.len(),
            rest == cs@.subrange(a as int, to as int),
            trail_quotes(rest) == (to - b) + trail_quotes(cs@.subrange(a as int, b as int)),
        decreases b - a,
    {
        proof {
            let t = cs@.subrange(a as int, b as int);
            assert(t.drop_last() =~= cs@.subrange(a as int, b - 1));
        }
        b = b - 1;
    }
    proof {
        assert(trail_quotes(cs@.subrange(a as int, b as int)) == 0);
        assert(rest.subrange(0, rest.len() - trail_quotes(rest)) =~= cs@.subrange(a as int, b as int));
    }
    (a, b)
}

/// Extract the id from a `url(#id)` / `url('#id')` paint reference.
pub fn paint_ref_id(v: &str) -> (r: Option<String>)
    ensures
        match spec_paint_ref_id(v@) {
            Some(x) => r matches Some(s) && s@ == x,
            None => r is None,
        },
{
    let cs = chars_of(v);
    let n = cs.len();
    let (a, b) = trim_bounds(cs.as_slice(), 0, n);
    proof {
        assert(cs@.subrange(0, n as int) =~= v@);
    }
    let ghost t = cs@.subrange(a as int, b as int);
    if b - a < 4 || cs[a] != 'u' || cs[a + 1] != 'r' || cs[a + 2] != 'l' || cs[a + 3] != '(' {
        proof {
            if t.len() >= 4 {
                assert(t.subrange(0, 4)[0] == cs@[a as int]);
                assert(t.subrange(0, 4)[1] == cs@[a + 1]);
                assert(t.subrange(0, 4)[2] == cs@[a + 2]);
                assert(t.subrange(0, 4)[3] == cs@[a + 3]);
            }
        }
        return None;
    }
    assert(t.subrange(0, 4) =~= seq!['u', 'r', 'l', '(']);
    let rs = a + 4;
    let rest = vstd::slice::slice_subrange(cs.as_slice(), rs, b);
    assert(rest@ =~= t.subrange(4, t.len() as int));
    let close_pat = vec![')'];
    assert(close_pat@ =~= seq![')']);
    let close = find(rest, close_pat.as_slice(), 0);
    proof {
        lemma_find_from_some(rest@, seq![')'], 0);
    }
    let in_end = match close {
        Some(k) => rs + k,
        None => b,
    };
    assert(cs@.subrange(rs as int, in_end as int) =~= match find_from(rest@, seq![')'], 0) {
        Some(k) => rest@.subrange(0, k),
        None => rest@,
    });
    let (ia, ib) = trim_bounds(cs.as_slice(), rs, in_end);
    let (qa, qb) = trim_quote_bounds(cs.as_slice(), ia, ib);
    let ghost unq = cs@.subrange(qa as int, qb as int);
    let start = if qb > qa && cs[qa] == '#' {
        qa + 1
    } else {
        qa
    };
    proof {
        if qb > qa {
            assert(unq[0] == cs@[qa as int]);
        }
        assert(cs@.subrange(start as int, qb as int) =~= (if unq.len() > 0 && unq[0] == '#' {
            unq.subrange(1, unq.len() as int)
        } else {
            unq
        }));
    }
    Some(string_of(cs.as_slice(), start, qb))
}

} // verus!
