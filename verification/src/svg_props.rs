//! Reading SVG presentation values: the keyword properties (line cap and
//! join, fill rule, text anchor, font style and weight), the font family,
//! paint values, and the text content of a `<text>` element with its white
//! space collapsed.

use vstd::prelude::*;
use crate::style::{Anchor, FillRule, LineCap, LineJoin, Rgb};
use crate::svg_syntax::{
    chars_eq, paint_ref_id, spec_paint_ref_id, trim, trim_bounds, trim_quote_bounds, trim_quotes,
};
use crate::text_util::{
    chars_of, find, find_from, is_white_space, is_whitespace, lemma_find_from_some, push_char,
    string_of,
};

verus! {

broadcast use vstd::string::group_string_axioms;

/// Whether `cs[a..b]` spells `word`.
fn spells(cs: &[char], a: usize, b: usize, word: &str) -> (r: bool)
    requires
        a <= b <= cs@.len(),
    ensures
        r == (cs@.subrange(a as int, b as int) == word@),
{
    let w = chars_of(word);
    let piece = vstd::slice::slice_subrange(cs, a, b);
    chars_eq(piece, w.as_slice())
}

/// The characters of `v` and the bounds of `trim(v@)` within them.
fn trimmed(v: &str) -> (r: (Vec<char>, usize, usize))
    ensures
        r.0@ == v@,
        r.1 <= r.2 <= r.0@.len(),
        r.0@.subrange(r.1 as int, r.2 as int) == trim(v@),
{
    let cs = chars_of(v);
    let n = cs.len();
    let (a, b) = trim_bounds(cs.as_slice(), 0, n);
    assert(cs@.subrange(0, n as int) =~= v@);
    (cs, a, b)
}

// ---------------------------------------------------------------------------
// Keyword properties (each value is trimmed first)
// ---------------------------------------------------------------------------

/// `stroke-linecap`: `round`, `square`, anything else flat.
pub open spec fn spec_line_cap(v: Seq<char>) -> LineCap {
    let t = trim(v);
    if t == "round"@ {
        LineCap::Round
    } else if t == "square"@ {
        LineCap::Square
    } else {
        LineCap::Flat
    }
}

/// `stroke-linejoin`: `round`, `bevel`, anything else miter.
pub open spec fn spec_line_join(v: Seq<char>) -> LineJoin {
    let t = trim(v);
    if t == "round"@ {
        LineJoin::Round
    } else if t == "bevel"@ {
        LineJoin::Bevel
    } else {
        LineJoin::Miter
    }
}

/// `fill-rule`: `evenodd`, anything else non-zero.
pub open spec fn spec_fill_rule(v: Seq<char>) -> FillRule {
    if trim(v) == "evenodd"@ {
        FillRule::EvenOdd
    } else {
        FillRule::NonZero
    }
}

/// `text-anchor`: `middle`, `end`, anything else start.
pub open spec fn spec_anchor(v: Seq<char>) -> Anchor {
    let t = trim(v);
    if t == "middle"@ {
        Anchor::Middle
    } else if t == "end"@ {
        Anchor::End
    } else {
        Anchor::Start
    }
}

/// `font-style`: italic for `italic` and `oblique`.
pub open spec fn spec_italic(v: Seq<char>) -> bool {
    let t = trim(v);
    t == "italic"@ || t == "oblique"@
}

/// The line cap a `stroke-linecap` value names.
pub fn line_cap_of(v: &str) -> (c: LineCap)
    ensures
        c == spec_line_cap(v@),
{
    let (cs, a, b) = trimmed(v);
    if spells(&cs, a, b, "round") {
        LineCap::Round
    } else if spells(&cs, a, b, "square") {
        LineCap::Square
    } else {
        LineCap::Flat
    }
}

/// The line join a `stroke-linejoin` value names.
pub fn line_join_of(v: &str) -> (j: LineJoin)
    ensures
        j == spec_line_join(v@),
{
    let (cs, a, b) = trimmed(v);
    if spells(&cs, a, b, "round") {
        LineJoin::Round
    } else if spells(&cs, a, b, "bevel") {
        LineJoin::Bevel
    } else {
        LineJoin::Miter
    }
}

/// The fill rule a `fill-rule` value names.
pub fn fill_rule_of(v: &str) -> (r: FillRule)
    ensures
        r == spec_fill_rule(v@),
{
    let (cs, a, b) = trimmed(v);
    if spells(&cs, a, b, "evenodd") {
        FillRule::EvenOdd
    } else {
        FillRule::NonZero
    }
}

/// The anchor a `text-anchor` value names.
pub fn anchor_of(v: &str) -> (r: Anchor)
    ensures
        r == spec_anchor(v@),
{
    let (cs, a, b) = trimmed(v);
    if spells(&cs, a, b, "middle") {
        Anchor::Middle
    } else if spells(&cs, a, b, "end") {
        Anchor::End
    } else {
        Anchor::Start
    }
}

/// Whether a `font-style` value selects an italic face.
pub fn is_italic(v: &str) -> (r: bool)
    ensures
        r == spec_italic(v@),
{
    let (cs, a, b) = trimmed(v);
    spells(&cs, a, b, "italic") || spells(&cs, a, b, "oblique")
}

// ---------------------------------------------------------------------------
// Text content
// ---------------------------------------------------------------------------

/// `cs` with each run of white space replaced by one space; `prev_ws` says
/// whether the text before `cs` ended in such a run.
pub open spec fn squeeze_ws(cs: Seq<char>, prev_ws: bool) -> Seq<char>
    decreases cs.len(),
{
    if cs.len() == 0 {
        seq![]
    } else if is_white_space(cs[0]) {
        (if prev_ws {
            seq![]
        } else {
            seq![' ']
        }) + squeeze_ws(cs.drop_first(), true)
    } else {
        seq![cs[0]] + squeeze_ws(cs.drop_first(), false)
    }
}

/// Text content as rendered under `xml:space="default"`: white-space runs
/// become single spaces, and the ends are trimmed.
pub open spec fn spec_collapse_ws(cs: Seq<char>) -> Seq<char> {
    trim(squeeze_ws(cs, false))
}

/// Collapse the white space of raw text content.
pub fn collapse_white_space(raw: &str) -> (out: String)
    ensures
        out@ == spec_collapse_ws(raw@),
{
    let cs = chars_of(raw);
    let n = cs.len();
    let mut out = String::new();
    let mut prev_ws = false;
    let mut i: usize = 0;
    assert(cs@.subrange(0, n as int) =~= cs@);
    while i < n
        invariant
            n == cs@.len(),
            cs@ == raw@,
            i <= n,
            out@ + squeeze_ws(cs@.subrange(i as int, n as int), prev_ws) == squeeze_ws(cs@, false),
        decreases n - i,
    {
        let ghost rest = cs@.subrange(i as int, n as int);
        let ghost before = out@;
        let c = cs[i];
        proof {
            assert(rest.drop_first() =~= cs@.subrange(i + 1, n as int));
        }
        if is_whitespace(c) {
            if !prev_ws {
                push_char(&mut out, ' ');
                assert(out@ + squeeze_ws(rest.drop_first(), true) =~= before + squeeze_ws(rest, prev_ws));
            } else {
                assert(out@ + squeeze_ws(rest.drop_first(), true) =~= before + squeeze_ws(rest, prev_ws));
            }
            prev_ws = true;
        } else {
            push_char(&mut out, c);
            assert(out@ + squeeze_ws(rest.drop_first(), false) =~= before + squeeze_ws(rest, prev_ws));
            prev_ws = false;
        }
        i = i + 1;
    }
    assert(out@ =~= squeeze_ws(cs@, false));
    let (oc, a, b) = trimmed(out.as_str());
    string_of(&oc, a, b)
}

// ---------------------------------------------------------------------------
// Fonts
// ---------------------------------------------------------------------------

/// The first family of a `font-family` list: the text before the first `,`,
/// trimmed, without quotes at either end, trimmed again; `None` when that
/// leaves nothing.
pub open spec fn spec_font_family(v: Seq<char>) -> Option<Seq<char>> {
    let first = match find_from(v, seq![','], 0) {
        Some(k) => v.subrange(0, k),
        None => v,
    };
    let name = trim(trim_quotes(trim(first)));
    if name.len() > 0 {
        Some(name)
    } else {
        None
    }
}

/// The family a `font-family` value selects first.
pub fn font_family_of(v: &str) -> (r: Option<String>)
    ensures
        match spec_font_family(v@) {
            Some(name) => r matches Some(s) && s@ == name,
            None => r is None,
        },
{
    let cs = chars_of(v);
    let n = cs.len();
    let comma = vec![','];
    let k = find(cs.as_slice(), comma.as_slice(), 0);
    proof {
        lemma_find_from_some(cs@, seq![','], 0);
        assert(comma@ == seq![',']);
    }
    let end = match k {
        Some(k) => k,
        None => n,
    };
    proof {
        assert(cs@.subrange(0, n as int) =~= cs@);
    }
    let (a, b) = trim_bounds(cs.as_slice(), 0, end);
    let (c, d) = trim_quote_bounds(cs.as_slice(), a, b);
    let (e, f) = trim_bounds(cs.as_slice(), c, d);
    if e < f {
        Some(string_of(&cs, e, f))
    } else {
        None
    }
}

pub open spec fn is_ascii_digit(c: char) -> bool {
    '0' <= c <= '9'
}

/// The value of a string of decimal digits.
pub open spec fn digits_value(ds: Seq<char>) -> int
    decreases ds.len(),
{
    if ds.len() == 0 {
        0
    } else {
        10 * digits_value(ds.drop_last()) + (ds.last() as int - '0' as int)
    }
}

/// `str::parse::<u16>`: an optional `+` sign followed by one or more ASCII
/// digits whose value fits in 16 bits; anything else is an error.
pub open spec fn spec_parse_u16(s: Seq<char>) -> Option<u16> {
    let ds = if s.len() > 0 && s[0] == '+' {
        s.drop_first()
    } else {
        s
    };
    if ds.len() > 0 && (forall|i: int| 0 <= i < ds.len() ==> is_ascii_digit(#[trigger] ds[i]))
        && digits_value(ds) <= u16::MAX {
        Some(digits_value(ds) as u16)
    } else {
        None
    }
}

/// `str::parse::<u16>` (std's `FromStr` for `u16`): as its documentation
/// states, an optional `+` followed by decimal digits only, the value in range.
#[verifier::external_body]
fn parse_u16(s: &str) -> (r: Option<u16>)
    ensures
        r == spec_parse_u16(s@),
{
    match s.parse::<u16>() {
        Ok(v) => Some(v),
        Err(_) => None,
    }
}

/// `font-weight`: `normal` 400, `bold` and `bolder` 700, `lighter` 300,
/// otherwise the value as a 16-bit number, or 400 when it is none.
pub open spec fn spec_font_weight(v: Seq<char>) -> u16 {
    let t = trim(v);
    if t == "normal"@ {
        400
    } else if t == "bold"@ || t == "bolder"@ {
        700
    } else if t == "lighter"@ {
        300
    } else {
        match spec_parse_u16(t) {
            Some(n) => n,
            None => 400,
        }
    }
}

/// The weight a `font-weight` value names.
pub fn font_weight_of(v: &str) -> (w: u16)
    ensures
        w == spec_font_weight(v@),
{
    let (cs, a, b) = trimmed(v);
    if spells(&cs, a, b, "normal") {
        400
    } else if spells(&cs, a, b, "bold") || spells(&cs, a, b, "bolder") {
        700
    } else if spells(&cs, a, b, "lighter") {
        300
    } else {
        let t = string_of(&cs, a, b);
        match parse_u16(t.as_str()) {
            Some(n) => n,
            None => 400,
        }
    }
}

// ---------------------------------------------------------------------------
// Elements
// ---------------------------------------------------------------------------

/// What an element does in a conversion, by its tag name.
#[derive(Debug, Clone, Copy, PartialEq, Eq)]
pub enum TagKind {
    /// `g`, `svg`, `a`: its children are drawn.
    Group,
    /// Definitions and styles, not drawn where they stand.
    Definition,
    /// `use`: a referenced element is drawn.
    Use,
    /// `text`: drawn as glyph outlines.
    Text,
    /// `tspan` and `image` outside a text run: skipped with a warning.
    NonVector,
    Path,
    Line,
    Polyline,
    Polygon,
    Rect,
    Circle,
    Ellipse,
    /// Anything else: its children are searched for drawables.
    Other,
}

/// The kind of an element with tag name `t`.
pub open spec fn spec_tag_kind(t: Seq<char>) -> TagKind {
    if t == "g"@ || t == "svg"@ || t == "a"@ {
        TagKind::Group
    } else if t == "defs"@ || t == "symbol"@ || t == "clipPath"@ || t == "mask"@ || t == "pattern"@
        || t == "marker"@ || t == "style"@ || t == "linearGradient"@ || t == "radialGradient"@ {
        TagKind::Definition
    } else if t == "use"@ {
        TagKind::Use
    } else if t == "text"@ {
        TagKind::Text
    } else if t == "tspan"@ || t == "image"@ {
        TagKind::NonVector
    } else if t == "path"@ {
        TagKind::Path
    } else if t == "line"@ {
        TagKind::Line
    } else if t == "polyline"@ {
        TagKind::Polyline
    } else if t == "polygon"@ {
        TagKind::Polygon
    } else if t == "rect"@ {
        TagKind::Rect
    } else if t == "circle"@ {
        TagKind::Circle
    } else if t == "ellipse"@ {
        TagKind::Ellipse
    } else {
        TagKind::Other
    }
}

/// Each drawable element is drawn as its own shape: `path`, `line`,
/// `polyline`, `polygon`, `rect`, `circle` and `ellipse` each have their
/// own kind, and no other name has it.
pub proof fn lemma_drawable_kinds(t: Seq<char>)
    ensures
        spec_tag_kind(t) == TagKind::Path <==> t == "path"@,
        spec_tag_kind(t) == TagKind::Line <==> t == "line"@,
        spec_tag_kind(t) == TagKind::Polyline <==> t == "polyline"@,
        spec_tag_kind(t) == TagKind::Polygon <==> t == "polygon"@,
        spec_tag_kind(t) == TagKind::Rect <==> t == "rect"@,
        spec_tag_kind(t) == TagKind::Circle <==> t == "circle"@,
        spec_tag_kind(t) == TagKind::Ellipse <==> t == "ellipse"@,
{
    reveal_strlit("g");
    reveal_strlit("svg");
    reveal_strlit("a");
    reveal_strlit("defs");
    reveal_strlit("symbol");
    reveal_strlit("clipPath");
    reveal_strlit("mask");
    reveal_strlit("pattern");
    reveal_strlit("marker");
    reveal_strlit("style");
    reveal_strlit("linearGradient");
    reveal_strlit("radialGradient");
    reveal_strlit("use");
    reveal_strlit("text");
    reveal_strlit("tspan");
    reveal_strlit("image");
    reveal_strlit("path");
    reveal_strlit("line");
    reveal_strlit("polyline");
    reveal_strlit("polygon");
    reveal_strlit("rect");
    reveal_strlit("circle");
    reveal_strlit("ellipse");
    assert("path"@ != "g"@) by {
        assert("path"@.len() != "g"@.len());
    }
    assert("path"@ != "svg"@) by {
        assert("path"@.len() != "svg"@.len());
    }
    assert("path"@ != "a"@) by {
        assert("path"@.len() != "a"@.len());
    }
    assert("path"@ != "defs"@) by {
        assert("path"@[0] != "defs"@[0]);
    }
    assert("path"@ != "symbol"@) by {
        assert("path"@.len() != "symbol"@.len());
    }
    assert("path"@ != "clipPath"@) by {
        assert("path"@.len() != "clipPath"@.len());
    }
    assert("path"@ != "mask"@) by {
        assert("path"@[0] != "mask"@[0]);
    }
    assert("path"@ != "pattern"@) by {
        assert("path"@.len() != "pattern"@.len());
    }
    assert("path"@ != "marker"@) by {
        assert("path"@.len() != "marker"@.len());
    }
    assert("path"@ != "style"@) by {
        assert("path"@.len() != "style"@.len());
    }
    assert("path"@ != "linearGradient"@) by {
        assert("path"@.len() != "linearGradient"@.len());
    }
    assert("path"@ != "radialGradient"@) by {
        assert("path"@.len() != "radialGradient"@.len());
    }
    assert("path"@ != "use"@) by {
        assert("path"@.len() != "use"@.len());
    }
    assert("path"@ != "text"@) by {
        assert("path"@[0] != "text"@[0]);
    }
    assert("path"@ != "tspan"@) by {
        assert("path"@.len() != "tspan"@.len());
    }
    assert("path"@ != "image"@) by {
        assert("path"@.len() != "image"@.len());
    }
    assert("line"@ != "g"@) by {
        assert("line"@.len() != "g"@.len());
    }
    assert("line"@ != "svg"@) by {
        assert("line"@.len() != "svg"@.len());
    }
    assert("line"@ != "a"@) by {
        assert("line"@.len() != "a"@.len());
    }
    assert("line"@ != "defs"@) by {
        assert("line"@[0] != "defs"@[0]);
    }
    assert("line"@ != "symbol"@) by {
        assert("line"@.len() != "symbol"@.len());
    }
    assert("line"@ != "clipPath"@) by {
        assert("line"@.len() != "clipPath"@.len());
    }
    assert("line"@ != "mask"@) by {
        assert("line"@[0] != "mask"@[0]);
    }
    assert("line"@ != "pattern"@) by {
        assert("line"@.len() != "pattern"@.len());
    }
    assert("line"@ != "marker"@) by {
        assert("line"@.len() != "marker"@.len());
    }
    assert("line"@ != "style"@) by {
        assert("line"@.len() != "style"@.len());
    }
    assert("line"@ != "linearGradient"@) by {
        assert("line"@.len() != "linearGradient"@.len());
    }
    assert("line"@ != "radialGradient"@) by {
        assert("line"@.len() != "radialGradient"@.len());
    }
    assert("line"@ != "use"@) by {
        assert("line"@.len() != "use"@.len());
    }
    assert("line"@ != "text"@) by {
        assert("line"@[0] != "text"@[0]);
    }
    assert("line"@ != "tspan"@) by {
        assert("line"@.len() != "tspan"@.len());
    }
    assert("line"@ != "image"@) by {
        assert("line"@.len() != "image"@.len());
    }
    assert("line"@ != "path"@) by {
        assert("line"@[0] != "path"@[0]);
    }
    assert("polyline"@ != "g"@) by {
        assert("polyline"@.len() != "g"@.len());
    }
    assert("polyline"@ != "svg"@) by {
        assert("polyline"@.len() != "svg"@.len());
    }
    assert("polyline"@ != "a"@) by {
        assert("polyline"@.len() != "a"@.len());
    }
    assert("polyline"@ != "defs"@) by {
        assert("polyline"@.len() != "defs"@.len());
    }
    assert("polyline"@ != "symbol"@) by {
        assert("polyline"@.len() != "symbol"@.len());
    }
    assert("polyline"@ != "clipPath"@) by {
        assert("polyline"@[0] != "clipPath"@[0]);
    }
    assert("polyline"@ != "mask"@) by {
        assert("polyline"@.len() != "mask"@.len());
    }
    assert("polyline"@ != "pattern"@) by {
        assert("polyline"@.len() != "pattern"@.len());
    }
    assert("polyline"@ != "marker"@) by {
        assert("polyline"@.len() != "marker"@.len());
    }
    assert("polyline"@ != "style"@) by {
        assert("polyline"@.len() != "style"@.len());
    }
    assert("polyline"@ != "linearGradient"@) by {
        assert("polyline"@.len() != "linearGradient"@.len());
    }
    assert("polyline"@ != "radialGradient"@) by {
        assert("polyline"@.len() != "radialGradient"@.len());
    }
    assert("polyline"@ != "use"@) by {
        assert("polyline"@.len() != "use"@.len());
    }
    assert("polyline"@ != "text"@) by {
        assert("polyline"@.len() != "text"@.len());
    }
    assert("polyline"@ != "tspan"@) by {
        assert("polyline"@.len() != "tspan"@.len());
    }
    assert("polyline"@ != "image"@) by {
        assert("polyline"@.len() != "image"@.len());
    }
    assert("polyline"@ != "path"@) by {
        assert("polyline"@.len() != "path"@.len());
    }
    assert("polyline"@ != "line"@) by {
        assert("polyline"@.len() != "line"@.len());
    }
    assert("polygon"@ != "g"@) by {
        assert("polygon"@.len() != "g"@.len());
    }
    assert("polygon"@ != "svg"@) by {
        assert("polygon"@.len() != "svg"@.len());
    }
    assert("polygon"@ != "a"@) by {
        assert("polygon"@.len() != "a"@.len());
    }
    assert("polygon"@ != "defs"@) by {
        assert("polygon"@.len() != "defs"@.len());
    }
    assert("polygon"@ != "symbol"@) by {
        assert("polygon"@.len() != "symbol"@.len());
    }
    assert("polygon"@ != "clipPath"@) by {
        assert("polygon"@.len() != "clipPath"@.len());
    }
    assert("polygon"@ != "mask"@) by {
        assert("polygon"@.len() != "mask"@.len());
    }
    assert("polygon"@ != "pattern"@) by {
        assert("polygon"@[1] != "pattern"@[1]);
    }
    assert("polygon"@ != "marker"@) by {
        assert("polygon"@.len() != "marker"@.len());
    }
    assert("polygon"@ != "style"@) by {
        assert("polygon"@.len() != "style"@.len());
    }
    assert("polygon"@ != "linearGradient"@) by {
        assert("polygon"@.len() != "linearGradient"@.len());
    }
    assert("polygon"@ != "radialGradient"@) by {
        assert("polygon"@.len() != "radialGradient"@.len());
    }
    assert("polygon"@ != "use"@) by {
        assert("polygon"@.len() != "use"@.len());
    }
    assert("polygon"@ != "text"@) by {
        assert("polygon"@.len() != "text"@.len());
    }
    assert("polygon"@ != "tspan"@) by {
        assert("polygon"@.len() != "tspan"@.len());
    }
    assert("polygon"@ != "image"@) by {
        assert("polygon"@.len() != "image"@.len());
    }
    assert("polygon"@ != "path"@) by {
        assert("polygon"@.len() != "path"@.len());
    }
    assert("polygon"@ != "line"@) by {
        assert("polygon"@.len() != "line"@.len());
    }
    assert("polygon"@ != "polyline"@) by {
        assert("polygon"@.len() != "polyline"@.len());
    }
    assert("rect"@ != "g"@) by {
        assert("rect"@.len() != "g"@.len());
    }
    assert("rect"@ != "svg"@) by {
        assert("rect"@.len() != "svg"@.len());
    }
    assert("rect"@ != "a"@) by {
        assert("rect"@.len() != "a"@.len());
    }
    assert("rect"@ != "defs"@) by {
        assert("rect"@[0] != "defs"@[0]);
    }
    assert("rect"@ != "symbol"@) by {
        assert("rect"@.len() != "symbol"@.len());
    }
    assert("rect"@ != "clipPath"@) by {
        assert("rect"@.len() != "clipPath"@.len());
    }
    assert("rect"@ != "mask"@) by {
        assert("rect"@[0] != "mask"@[0]);
    }
    assert("rect"@ != "pattern"@) by {
        assert("rect"@.len() != "pattern"@.len());
    }
    assert("rect"@ != "marker"@) by {
        assert("rect"@.len() != "marker"@.len());
    }
    assert("rect"@ != "style"@) by {
        assert("rect"@.len() != "style"@.len());
    }
    assert("rect"@ != "linearGradient"@) by {
        assert("rect"@.len() != "linearGradient"@.len());
    }
    assert("rect"@ != "radialGradient"@) by {
        assert("rect"@.len() != "radialGradient"@.len());
    }
    assert("rect"@ != "use"@) by {
        assert("rect"@.len() != "use"@.len());
    }
    assert("rect"@ != "text"@) by {
        assert("rect"@[0] != "text"@[0]);
    }
    assert("rect"@ != "tspan"@) by {
        assert("rect"@.len() != "tspan"@.len());
    }
    assert("rect"@ != "image"@) by {
        assert("rect"@.len() != "image"@.len());
    }
    assert("rect"@ != "path"@) by {
        assert("rect"@[0] != "path"@[0]);
    }
    assert("rect"@ != "line"@) by {
        assert("rect"@[0] != "line"@[0]);
    }
    assert("rect"@ != "polyline"@) by {
        assert("rect"@.len() != "polyline"@.len());
    }
    assert("rect"@ != "polygon"@) by {
        assert("rect"@.len() != "polygon"@.len());
    }
    assert("circle"@ != "g"@) by {
        assert("circle"@.len() != "g"@.len());
    }
    assert("circle"@ != "svg"@) by {
        assert("circle"@.len() != "svg"@.len());
    }
    assert("circle"@ != "a"@) by {
        assert("circle"@.len() != "a"@.len());
    }
    assert("circle"@ != "defs"@) by {
        assert("circle"@.len() != "defs"@.len());
    }
    assert("circle"@ != "symbol"@) by {
        assert("circle"@[0] != "symbol"@[0]);
    }
    assert("circle"@ != "clipPath"@) by {
        assert("circle"@.len() != "clipPath"@.len());
    }
    assert("circle"@ != "mask"@) by {
        assert("circle"@.len() != "mask"@.len());
    }
    assert("circle"@ != "pattern"@) by {
        assert("circle"@.len() != "pattern"@.len());
    }
    assert("circle"@ != "marker"@) by {
        assert("circle"@[0] != "marker"@[0]);
    }
    assert("circle"@ != "style"@) by {
        assert("circle"@.len() != "style"@.len());
    }
    assert("circle"@ != "linearGradient"@) by {
        assert("circle"@.len() != "linearGradient"@.len());
    }
    assert("circle"@ != "radialGradient"@) by {
        assert("circle"@.len() != "radialGradient"@.len());
    }
    assert("circle"@ != "use"@) by {
        assert("circle"@.len() != "use"@.len());
    }
    assert("circle"@ != "text"@) by {
        assert("circle"@.len() != "text"@.len());
    }
    assert("circle"@ != "tspan"@) by {
        assert("circle"@.len() != "tspan"@.len());
    }
    assert("circle"@ != "image"@) by {
        assert("circle"@.len() != "image"@.len());
    }
    assert("circle"@ != "path"@) by {
        assert("circle"@.len() != "path"@.len());
    }
    assert("circle"@ != "line"@) by {
        assert("circle"@.len() != "line"@.len());
    }
    assert("circle"@ != "polyline"@) by {
        assert("circle"@.len() != "polyline"@.len());
    }
    assert("circle"@ != "polygon"@) by {
        assert("circle"@.len() != "polygon"@.len());
    }
    assert("circle"@ != "rect"@) by {
        assert("circle"@.len() != "rect"@.len());
    }
    assert("ellipse"@ != "g"@) by {
        assert("ellipse"@.len() != "g"@.len());
    }
    assert("ellipse"@ != "svg"@) by {
        assert("ellipse"@.len() != "svg"@.len());
    }
    assert("ellipse"@ != "a"@) by {
        assert("ellipse"@.len() != "a"@.len());
    }
    assert("ellipse"@ != "defs"@) by {
        assert("ellipse"@.len() != "defs"@.len());
    }
    assert("ellipse"@ != "symbol"@) by {
        assert("ellipse"@.len() != "symbol"@.len());
    }
    assert("ellipse"@ != "clipPath"@) by {
        assert("ellipse"@.len() != "clipPath"@.len());
    }
    assert("ellipse"@ != "mask"@) by {
        assert("ellipse"@.len() != "mask"@.len());
    }
    assert("ellipse"@ != "pattern"@) by {
        assert("ellipse"@[0] != "pattern"@[0]);
    }
    assert("ellipse"@ != "marker"@) by {
        assert("ellipse"@.len() != "marker"@.len());
    }
    assert("ellipse"@ != "style"@) by {
        assert("ellipse"@.len() != "style"@.len());
    }
    assert("ellipse"@ != "linearGradient"@) by {
        assert("ellipse"@.len() != "linearGradient"@.len());
    }
    assert("ellipse"@ != "radialGradient"@) by {
        assert("ellipse"@.len() != "radialGradient"@.len());
    }
    assert("ellipse"@ != "use"@) by {
        assert("ellipse"@.len() != "use"@.len());
    }
    assert("ellipse"@ != "text"@) by {
        assert("ellipse"@.len() != "text"@.len());
    }
    assert("ellipse"@ != "tspan"@) by {
        assert("ellipse"@.len() != "tspan"@.len());
    }
    assert("ellipse"@ != "image"@) by {
        assert("ellipse"@.len() != "image"@.len());
    }
    assert("ellipse"@ != "path"@) by {
        assert("ellipse"@.len() != "path"@.len());
    }
    assert("ellipse"@ != "line"@) by {
        assert("ellipse"@.len() != "line"@.len());
    }
    assert("ellipse"@ != "polyline"@) by {
        assert("ellipse"@.len() != "polyline"@.len());
    }
    assert("ellipse"@ != "polygon"@) by {
        assert("ellipse"@[0] != "polygon"@[0]);
    }
    assert("ellipse"@ != "rect"@) by {
        assert("ellipse"@.len() != "rect"@.len());
    }
    assert("ellipse"@ != "circle"@) by {
        assert("ellipse"@.len() != "circle"@.len());
    }
}

/// The kinds of the other elements: `g`, `svg` and `a` are groups whose
/// children are drawn; the paint servers, `defs`, `symbol`, `clipPath`,
/// `mask`, `pattern`, `marker` and `style` are definitions, not drawn where
/// they stand; `use` draws its target; `text` is text; `tspan` and `image`
/// are reported as not vector; any other name is an unknown element whose
/// children are searched.
pub proof fn lemma_tag_kinds(t: Seq<char>)
    ensures
        spec_tag_kind(t) == TagKind::Group <==> (t == "g"@ || t == "svg"@ || t == "a"@),
        spec_tag_kind(t) == TagKind::Definition <==> (t == "defs"@ || t == "symbol"@ || t == "clipPath"@ || t == "mask"@ || t == "pattern"@ || t == "marker"@ || t == "style"@ || t == "linearGradient"@ || t == "radialGradient"@),
        spec_tag_kind(t) == TagKind::Use <==> (t == "use"@),
        spec_tag_kind(t) == TagKind::Text <==> (t == "text"@),
        spec_tag_kind(t) == TagKind::NonVector <==> (t == "tspan"@ || t == "image"@),
        spec_tag_kind(t) == TagKind::Other <==> !(t == "g"@ || t == "svg"@ || t == "a"@ || t == "defs"@ || t == "symbol"@ || t == "clipPath"@ || t == "mask"@ || t == "pattern"@ || t == "marker"@ || t == "style"@ || t == "linearGradient"@ || t == "radialGradient"@ || t == "use"@ || t == "text"@ || t == "tspan"@ || t == "image"@ || t == "path"@ || t == "line"@ || t == "polyline"@ || t == "polygon"@ || t == "rect"@ || t == "circle"@ || t == "ellipse"@),
{
    reveal_strlit("g");
    reveal_strlit("svg");
    reveal_strlit("a");
    reveal_strlit("defs");
    reveal_strlit("symbol");
    reveal_strlit("clipPath");
    reveal_strlit("mask");
    reveal_strlit("pattern");
    reveal_strlit("marker");
    reveal_strlit("style");
    reveal_strlit("linearGradient");
    reveal_strlit("radialGradient");
    reveal_strlit("use");
    reveal_strlit("text");
    reveal_strlit("tspan");
    reveal_strlit("image");
    reveal_strlit("path");
    reveal_strlit("line");
    reveal_strlit("polyline");
    reveal_strlit("polygon");
    reveal_strlit("rect");
    reveal_strlit("circle");
    reveal_strlit("ellipse");
    assert("svg"@ != "g"@) by {
        assert("svg"@.len() != "g"@.len());
    }
    assert("a"@ != "g"@) by {
        assert("a"@[0] != "g"@[0]);
    }
    assert("a"@ != "svg"@) by {
        assert("a"@.len() != "svg"@.len());
    }
    assert("defs"@ != "g"@) by {
        assert("defs"@.len() != "g"@.len());
    }
    assert("defs"@ != "svg"@) by {
        assert("defs"@.len() != "svg"@.len());
    }
    assert("defs"@ != "a"@) by {
        assert("defs"@.len() != "a"@.len());
    }
    assert("symbol"@ != "g"@) by {
        assert("symbol"@.len() != "g"@.len());
    }
    assert("symbol"@ != "svg"@) by {
        assert("symbol"@.len() != "svg"@.len());
    }
    assert("symbol"@ != "a"@) by {
        assert("symbol"@.len() != "a"@.len());
    }
    assert("symbol"@ != "defs"@) by {
        assert("symbol"@.len() != "defs"@.len());
    }
    assert("clipPath"@ != "g"@) by {
        assert("clipPath"@.len() != "g"@.len());
    }
    assert("clipPath"@ != "svg"@) by {
        assert("clipPath"@.len() != "svg"@.len());
    }
    assert("clipPath"@ != "a"@) by {
        assert("clipPath"@.len() != "a"@.len());
    }
    assert("clipPath"@ != "defs"@) by {
        assert("clipPath"@.len() != "defs"@.len());
    }
    assert("clipPath"@ != "symbol"@) by {
        assert("clipPath"@.len() != "symbol"@.len());
    }
    assert("mask"@ != "g"@) by {
        assert("mask"@.len() != "g"@.len());
    }
    assert("mask"@ != "svg"@) by {
        assert("mask"@.len() != "svg"@.len());
    }
    assert("mask"@ != "a"@) by {
        assert("mask"@.len() != "a"@.len());
    }
    assert("mask"@ != "defs"@) by {
        assert("mask"@[0] != "defs"@[0]);
    }
    assert("mask"@ != "symbol"@) by {
        assert("mask"@.len() != "symbol"@.len());
    }
    assert("mask"@ != "clipPath"@) by {
        assert("mask"@.len() != "clipPath"@.len());
    }
    assert("pattern"@ != "g"@) by {
        assert("pattern"@.len() != "g"@.len());
    }
    assert("pattern"@ != "svg"@) by {
        assert("pattern"@.len() != "svg"@.len());
    }
    assert("pattern"@ != "a"@) by {
        assert("pattern"@.len() != "a"@.len());
    }
    assert("pattern"@ != "defs"@) by {
        assert("pattern"@.len() != "defs"@.len());
    }
    assert("pattern"@ != "symbol"@) by {
        assert("pattern"@.len() != "symbol"@.len());
    }
    assert("pattern"@ != "clipPath"@) by {
        assert("pattern"@.len() != "clipPath"@.len());
    }
    assert("pattern"@ != "mask"@) by {
        assert("pattern"@.len() != "mask"@.len());
    }
    assert("marker"@ != "g"@) by {
        assert("marker"@.len() != "g"@.len());
    }
    assert("marker"@ != "svg"@) by {
        assert("marker"@.len() != "svg"@.len());
    }
    assert("marker"@ != "a"@) by {
        assert("marker"@.len() != "a"@.len());
    }
    assert("marker"@ != "defs"@) by {
        assert("marker"@.len() != "defs"@.len());
    }
    assert("marker"@ != "symbol"@) by {
        assert("marker"@[0] != "symbol"@[0]);
    }
    assert("marker"@ != "clipPath"@) by {
        assert("marker"@.len() != "clipPath"@.len());
    }
    assert("marker"@ != "mask"@) by {
        assert("marker"@.len() != "mask"@.len());
    }
    assert("marker"@ != "pattern"@) by {
        assert("marker"@.len() != "pattern"@.len());
    }
    assert("style"@ != "g"@) by {
        assert("style"@.len() != "g"@.len());
    }
    assert("style"@ != "svg"@) by {
        assert("style"@.len() != "svg"@.len());
    }
    assert("style"@ != "a"@) by {
        assert("style"@.len() != "a"@.len());
    }
    assert("style"@ != "defs"@) by {
        assert("style"@.len() != "defs"@.len());
    }
    assert("style"@ != "symbol"@) by {
        assert("style"@.len() != "symbol"@.len());
    }
    assert("style"@ != "clipPath"@) by {
        assert("style"@.len() != "clipPath"@.len());
    }
    assert("style"@ != "mask"@) by {
        assert("style"@.len() != "mask"@.len());
    }
    assert("style"@ != "pattern"@) by {
        assert("style"@.len() != "pattern"@.len());
    }
    assert("style"@ != "marker"@) by {
        assert("style"@.len() != "marker"@.len());
    }
    assert("linearGradient"@ != "g"@) by {
        assert("linearGradient"@.len() != "g"@.len());
    }
    assert("linearGradient"@ != "svg"@) by {
        assert("linearGradient"@.len() != "svg"@.len());
    }
    assert("linearGradient"@ != "a"@) by {
        assert("linearGradient"@.len() != "a"@.len());
    }
    assert("linearGradient"@ != "defs"@) by {
        assert("linearGradient"@.len() != "defs"@.len());
    }
    assert("linearGradient"@ != "symbol"@) by {
        assert("linearGradient"@.len() != "symbol"@.len());
    }
    assert("linearGradient"@ != "clipPath"@) by {
        assert("linearGradient"@.len() != "clipPath"@.len());
    }
    assert("linearGradient"@ != "mask"@) by {
        assert("linearGradient"@.len() != "mask"@.len());
    }
    assert("linearGradient"@ != "pattern"@) by {
        assert("linearGradient"@.len() != "pattern"@.len());
    }
    assert("linearGradient"@ != "marker"@) by {
        assert("linearGradient"@.len() != "marker"@.len());
    }
    assert("linearGradient"@ != "style"@) by {
        assert("linearGradient"@.len() != "style"@.len());
    }
    assert("radialGradient"@ != "g"@) by {
        assert("radialGradient"@.len() != "g"@.len());
    }
    assert("radialGradient"@ != "svg"@) by {
        assert("radialGradient"@.len() != "svg"@.len());
    }
    assert("radialGradient"@ != "a"@) by {
        assert("radialGradient"@.len() != "a"@.len());
    }
    assert("radialGradient"@ != "defs"@) by {
        assert("radialGradient"@.len() != "defs"@.len());
    }
    assert("radialGradient"@ != "symbol"@) by {
        assert("radialGradient"@.len() != "symbol"@.len());
    }
    assert("radialGradient"@ != "clipPath"@) by {
        assert("radialGradient"@.len() != "clipPath"@.len());
    }
    assert("radialGradient"@ != "mask"@) by {
        assert("radialGradient"@.len() != "mask"@.len());
    }
    assert("radialGradient"@ != "pattern"@) by {
        assert("radialGradient"@.len() != "pattern"@.len());
    }
    assert("radialGradient"@ != "marker"@) by {
        assert("radialGradient"@.len() != "marker"@.len());
    }
    assert("radialGradient"@ != "style"@) by {
        assert("radialGradient"@.len() != "style"@.len());
    }
    assert("radialGradient"@ != "linearGradient"@) by {
        assert("radialGradient"@[0] != "linearGradient"@[0]);
    }
    assert("use"@ != "g"@) by {
        assert("use"@.len() != "g"@.len());
    }
    assert("use"@ != "svg"@) by {
        assert("use"@[0] != "svg"@[0]);
    }
    assert("use"@ != "a"@) by {
        assert("use"@.len() != "a"@.len());
    }
    assert("use"@ != "defs"@) by {
        assert("use"@.len() != "defs"@.len());
    }
    assert("use"@ != "symbol"@) by {
        assert("use"@.len() != "symbol"@.len());
    }
    assert("use"@ != "clipPath"@) by {
        assert("use"@.len() != "clipPath"@.len());
    }
    assert("use"@ != "mask"@) by {
        assert("use"@.len() != "mask"@.len());
    }
    assert("use"@ != "pattern"@) by {
        assert("use"@.len() != "pattern"@.len());
    }
    assert("use"@ != "marker"@) by {
        assert("use"@.len() != "marker"@.len());
    }
    assert("use"@ != "style"@) by {
        assert("use"@.len() != "style"@.len());
    }
    assert("use"@ != "linearGradient"@) by {
        assert("use"@.len() != "linearGradient"@.len());
    }
    assert("use"@ != "radialGradient"@) by {
        assert("use"@.len() != "radialGradient"@.len());
    }
    assert("text"@ != "g"@) by {
        assert("text"@.len() != "g"@.len());
    }
    assert("text"@ != "svg"@) by {
        assert("text"@.len() != "svg"@.len());
    }
    assert("text"@ != "a"@) by {
        assert("text"@.len() != "a"@.len());
    }
    assert("text"@ != "defs"@) by {
        assert("text"@[0] != "defs"@[0]);
    }
    assert("text"@ != "symbol"@) by {
        assert("text"@.len() != "symbol"@.len());
    }
    assert("text"@ != "clipPath"@) by {
        assert("text"@.len() != "clipPath"@.len());
    }
    assert("text"@ != "mask"@) by {
        assert("text"@[0] != "mask"@[0]);
    }
    assert("text"@ != "pattern"@) by {
        assert("text"@.len() != "pattern"@.len());
    }
    assert("text"@ != "marker"@) by {
        assert("text"@.len() != "marker"@.len());
    }
    assert("text"@ != "style"@) by {
        assert("text"@.len() != "style"@.len());
    }
    assert("text"@ != "linearGradient"@) by {
        assert("text"@.len() != "linearGradient"@.len());
    }
    assert("text"@ != "radialGradient"@) by {
        assert("text"@.len() != "radialGradient"@.len());
    }
    assert("text"@ != "use"@) by {
        assert("text"@.len() != "use"@.len());
    }
    assert("tspan"@ != "g"@) by {
        assert("tspan"@.len() != "g"@.len());
    }
    assert("tspan"@ != "svg"@) by {
        assert("tspan"@.len() != "svg"@.len());
    }
    assert("tspan"@ != "a"@) by {
        assert("tspan"@.len() != "a"@.len());
    }
    assert("tspan"@ != "defs"@) by {
        assert("tspan"@.len() != "defs"@.len());
    }
    assert("tspan"@ != "symbol"@) by {
        assert("tspan"@.len() != "symbol"@.len());
    }
    assert("tspan"@ != "clipPath"@) by {
        assert("tspan"@.len() != "clipPath"@.len());
    }
    assert("tspan"@ != "mask"@) by {
        assert("tspan"@.len() != "mask"@.len());
    }
    assert("tspan"@ != "pattern"@) by {
        assert("tspan"@.len() != "pattern"@.len());
    }
    assert("tspan"@ != "marker"@) by {
        assert("tspan"@.len() != "marker"@.len());
    }
    assert("tspan"@ != "style"@) by {
        assert("tspan"@[0] != "style"@[0]);
    }
    assert("tspan"@ != "linearGradient"@) by {
        assert("tspan"@.len() != "linearGradient"@.len());
    }
    assert("tspan"@ != "radialGradient"@) by {
        assert("tspan"@.len() != "radialGradient"@.len());
    }
    assert("tspan"@ != "use"@) by {
        assert("tspan"@.len() != "use"@.len());
    }
    assert("tspan"@ != "text"@) by {
        assert("tspan"@.len() != "text"@.len());
    }
    assert("image"@ != "g"@) by {
        assert("image"@.len() != "g"@.len());
    }
    assert("image"@ != "svg"@) by {
        assert("image"@.len() != "svg"@.len());
    }
    assert("image"@ != "a"@) by {
        assert("image"@.len() != "a"@.len());
    }
    assert("image"@ != "defs"@) by {
        assert("image"@.len() != "defs"@.len());
    }
    assert("image"@ != "symbol"@) by {
        assert("image"@.len() != "symbol"@.len());
    }
    assert("image"@ != "clipPath"@) by {
        assert("image"@.len() != "clipPath"@.len());
    }
    assert("image"@ != "mask"@) by {
        assert("image"@.len() != "mask"@.len());
    }
    assert("image"@ != "pattern"@) by {
        assert("image"@.len() != "pattern"@.len());
    }
    assert("image"@ != "marker"@) by {
        assert("image"@.len() != "marker"@.len());
    }
    assert("image"@ != "style"@) by {
        assert("image"@[0] != "style"@[0]);
    }
    assert("image"@ != "linearGradient"@) by {
        assert("image"@.len() != "linearGradient"@.len());
    }
    assert("image"@ != "radialGradient"@) by {
        assert("image"@.len() != "radialGradient"@.len());
    }
    assert("image"@ != "use"@) by {
        assert("image"@.len() != "use"@.len());
    }
    assert("image"@ != "text"@) by {
        assert("image"@.len() != "text"@.len());
    }
    assert("image"@ != "tspan"@) by {
        assert("image"@[0] != "tspan"@[0]);
    }
    assert("path"@ != "g"@) by {
        assert("path"@.len() != "g"@.len());
    }
    assert("path"@ != "svg"@) by {
        assert("path"@.len() != "svg"@.len());
    }
    assert("path"@ != "a"@) by {
        assert("path"@.len() != "a"@.len());
    }
    assert("path"@ != "defs"@) by {
        assert("path"@[0] != "defs"@[0]);
    }
    assert("path"@ != "symbol"@) by {
        assert("path"@.len() != "symbol"@.len());
    }
    assert("path"@ != "clipPath"@) by {
        assert("path"@.len() != "clipPath"@.len());
    }
    assert("path"@ != "mask"@) by {
        assert("path"@[0] != "mask"@[0]);
    }
    assert("path"@ != "pattern"@) by {
        assert("path"@.len() != "pattern"@.len());
    }
    assert("path"@ != "marker"@) by {
        assert("path"@.len() != "marker"@.len());
    }
    assert("path"@ != "style"@) by {
        assert("path"@.len() != "style"@.len());
    }
    assert("path"@ != "linearGradient"@) by {
        assert("path"@.len() != "linearGradient"@.len());
    }
    assert("path"@ != "radialGradient"@) by {
        assert("path"@.len() != "radialGradient"@.len());
    }
    assert("path"@ != "use"@) by {
        assert("path"@.len() != "use"@.len());
    }
    assert("path"@ != "text"@) by {
        assert("path"@[0] != "text"@[0]);
    }
    assert("path"@ != "tspan"@) by {
        assert("path"@.len() != "tspan"@.len());
    }
    assert("path"@ != "image"@) by {
        assert("path"@.len() != "image"@.len());
    }
    assert("line"@ != "g"@) by {
        assert("line"@.len() != "g"@.len());
    }
    assert("line"@ != "svg"@) by {
        assert("line"@.len() != "svg"@.len());
    }
    assert("line"@ != "a"@) by {
        assert("line"@.len() != "a"@.len());
    }
    assert("line"@ != "defs"@) by {
        assert("line"@[0] != "defs"@[0]);
    }
    assert("line"@ != "symbol"@) by {
        assert("line"@.len() != "symbol"@.len());
    }
    assert("line"@ != "clipPath"@) by {
        assert("line"@.len() != "clipPath"@.len());
    }
    assert("line"@ != "mask"@) by {
        assert("line"@[0] != "mask"@[0]);
    }
    assert("line"@ != "pattern"@) by {
        assert("line"@.len() != "pattern"@.len());
    }
    assert("line"@ != "marker"@) by {
        assert("line"@.len() != "marker"@.len());
    }
    assert("line"@ != "style"@) by {
        assert("line"@.len() != "style"@.len());
    }
    assert("line"@ != "linearGradient"@) by {
        assert("line"@.len() != "linearGradient"@.len());
    }
    assert("line"@ != "radialGradient"@) by {
        assert("line"@.len() != "radialGradient"@.len());
    }
    assert("line"@ != "use"@) by {
        assert("line"@.len() != "use"@.len());
    }
    assert("line"@ != "text"@) by {
        assert("line"@[0] != "text"@[0]);
    }
    assert("line"@ != "tspan"@) by {
        assert("line"@.len() != "tspan"@.len());
    }
    assert("line"@ != "image"@) by {
        assert("line"@.len() != "image"@.len());
    }
    assert("line"@ != "path"@) by {
        assert("line"@[0] != "path"@[0]);
    }
    assert("polyline"@ != "g"@) by {
        assert("polyline"@.len() != "g"@.len());
    }
    assert("polyline"@ != "svg"@) by {
        assert("polyline"@.len() != "svg"@.len());
    }
    assert("polyline"@ != "a"@) by {
        assert("polyline"@.len() != "a"@.len());
    }
    assert("polyline"@ != "defs"@) by {
        assert("polyline"@.len() != "defs"@.len());
    }
    assert("polyline"@ != "symbol"@) by {
        assert("polyline"@.len() != "symbol"@.len());
    }
    assert("polyline"@ != "clipPath"@) by {
        assert("polyline"@[0] != "clipPath"@[0]);
    }
    assert("polyline"@ != "mask"@) by {
        assert("polyline"@.len() != "mask"@.len());
    }
    assert("polyline"@ != "pattern"@) by {
        assert("polyline"@.len() != "pattern"@.len());
    }
    assert("polyline"@ != "marker"@) by {
        assert("polyline"@.len() != "marker"@.len());
    }
    assert("polyline"@ != "style"@) by {
        assert("polyline"@.len() != "style"@.len());
    }
    assert("polyline"@ != "linearGradient"@) by {
        assert("polyline"@.len() != "linearGradient"@.len());
    }
    assert("polyline"@ != "radialGradient"@) by {
        assert("polyline"@.len() != "radialGradient"@.len());
    }
    assert("polyline"@ != "use"@) by {
        assert("polyline"@.len() != "use"@.len());
    }
    assert("polyline"@ != "text"@) by {
        assert("polyline"@.len() != "text"@.len());
    }
    assert("polyline"@ != "tspan"@) by {
        assert("polyline"@.len() != "tspan"@.len());
    }
    assert("polyline"@ != "image"@) by {
        assert("polyline"@.len() != "image"@.len());
    }
    assert("polyline"@ != "path"@) by {
        assert("polyline"@.len() != "path"@.len());
    }
    assert("polyline"@ != "line"@) by {
        assert("polyline"@.len() != "line"@.len());
    }
    assert("polygon"@ != "g"@) by {
        assert("polygon"@.len() != "g"@.len());
    }
    assert("polygon"@ != "svg"@) by {
        assert("polygon"@.len() != "svg"@.len());
    }
    assert("polygon"@ != "a"@) by {
        assert("polygon"@.len() != "a"@.len());
    }
    assert("polygon"@ != "defs"@) by {
        assert("polygon"@.len() != "defs"@.len());
    }
    assert("polygon"@ != "symbol"@) by {
        assert("polygon"@.len() != "symbol"@.len());
    }
    assert("polygon"@ != "clipPath"@) by {
        assert("polygon"@.len() != "clipPath"@.len());
    }
    assert("polygon"@ != "mask"@) by {
        assert("polygon"@.len() != "mask"@.len());
    }
    assert("polygon"@ != "pattern"@) by {
        assert("polygon"@[1] != "pattern"@[1]);
    }
    assert("polygon"@ != "marker"@) by {
        assert("polygon"@.len() != "marker"@.len());
    }
    assert("polygon"@ != "style"@) by {
        assert("polygon"@.len() != "style"@.len());
    }
    assert("polygon"@ != "linearGradient"@) by {
        assert("polygon"@.len() != "linearGradient"@.len());
    }
    assert("polygon"@ != "radialGradient"@) by {
        assert("polygon"@.len() != "radialGradient"@.len());
    }
    assert("polygon"@ != "use"@) by {
        assert("polygon"@.len() != "use"@.len());
    }
    assert("polygon"@ != "text"@) by {
        assert("polygon"@.len() != "text"@.len());
    }
    assert("polygon"@ != "tspan"@) by {
        assert("polygon"@.len() != "tspan"@.len());
    }
    assert("polygon"@ != "image"@) by {
        assert("polygon"@.len() != "image"@.len());
    }
    assert("polygon"@ != "path"@) by {
        assert("polygon"@.len() != "path"@.len());
    }
    assert("polygon"@ != "line"@) by {
        assert("polygon"@.len() != "line"@.len());
    }
    assert("polygon"@ != "polyline"@) by {
        assert("polygon"@.len() != "polyline"@.len());
    }
    assert("rect"@ != "g"@) by {
        assert("rect"@.len() != "g"@.len());
    }
    assert("rect"@ != "svg"@) by {
        assert("rect"@.len() != "svg"@.len());
    }
    assert("rect"@ != "a"@) by {
        assert("rect"@.len() != "a"@.len());
    }
    assert("rect"@ != "defs"@) by {
        assert("rect"@[0] != "defs"@[0]);
    }
    assert("rect"@ != "symbol"@) by {
        assert("rect"@.len() != "symbol"@.len());
    }
    assert("rect"@ != "clipPath"@) by {
        assert("rect"@.len() != "clipPath"@.len());
    }
    assert("rect"@ != "mask"@) by {
        assert("rect"@[0] != "mask"@[0]);
    }
    assert("rect"@ != "pattern"@) by {
        assert("rect"@.len() != "pattern"@.len());
    }
    assert("rect"@ != "marker"@) by {
        assert("rect"@.len() != "marker"@.len());
    }
    assert("rect"@ != "style"@) by {
        assert("rect"@.len() != "style"@.len());
    }
    assert("rect"@ != "linearGradient"@) by {
        assert("rect"@.len() != "linearGradient"@.len());
    }
    assert("rect"@ != "radialGradient"@) by {
        assert("rect"@.len() != "radialGradient"@.len());
    }
    assert("rect"@ != "use"@) by {
        assert("rect"@.len() != "use"@.len());
    }
    assert("rect"@ != "text"@) by {
        assert("rect"@[0] != "text"@[0]);
    }
    assert("rect"@ != "tspan"@) by {
        assert("rect"@.len() != "tspan"@.len());
    }
    assert("rect"@ != "image"@) by {
        assert("rect"@.len() != "image"@.len());
    }
    assert("rect"@ != "path"@) by {
        assert("rect"@[0] != "path"@[0]);
    }
    assert("rect"@ != "line"@) by {
        assert("rect"@[0] != "line"@[0]);
    }
    assert("rect"@ != "polyline"@) by {
        assert("rect"@.len() != "polyline"@.len());
    }
    assert("rect"@ != "polygon"@) by {
        assert("rect"@.len() != "polygon"@.len());
    }
    assert("circle"@ != "g"@) by {
        assert("circle"@.len() != "g"@.len());
    }
    assert("circle"@ != "svg"@) by {
        assert("circle"@.len() != "svg"@.len());
    }
    assert("circle"@ != "a"@) by {
        assert("circle"@.len() != "a"@.len());
    }
    assert("circle"@ != "defs"@) by {
        assert("circle"@.len() != "defs"@.len());
    }
    assert("circle"@ != "symbol"@) by {
        assert("circle"@[0] != "symbol"@[0]);
    }
    assert("circle"@ != "clipPath"@) by {
        assert("circle"@.len() != "clipPath"@.len());
    }
    assert("circle"@ != "mask"@) by {
        assert("circle"@.len() != "mask"@.len());
    }
    assert("circle"@ != "pattern"@) by {
        assert("circle"@.len() != "pattern"@.len());
    }
    assert("circle"@ != "marker"@) by {
        assert("circle"@[0] != "marker"@[0]);
    }
    assert("circle"@ != "style"@) by {
        assert("circle"@.len() != "style"@.len());
    }
    assert("circle"@ != "linearGradient"@) by {
        assert("circle"@.len() != "linearGradient"@.len());
    }
    assert("circle"@ != "radialGradient"@) by {
        assert("circle"@.len() != "radialGradient"@.len());
    }
    assert("circle"@ != "use"@) by {
        assert("circle"@.len() != "use"@.len());
    }
    assert("circle"@ != "text"@) by {
        assert("circle"@.len() != "text"@.len());
    }
    assert("circle"@ != "tspan"@) by {
        assert("circle"@.len() != "tspan"@.len());
    }
    assert("circle"@ != "image"@) by {
        assert("circle"@.len() != "image"@.len());
    }
    assert("circle"@ != "path"@) by {
        assert("circle"@.len() != "path"@.len());
    }
    assert("circle"@ != "line"@) by {
        assert("circle"@.len() != "line"@.len());
    }
    assert("circle"@ != "polyline"@) by {
        assert("circle"@.len() != "polyline"@.len());
    }
    assert("circle"@ != "polygon"@) by {
        assert("circle"@.len() != "polygon"@.len());
    }
    assert("circle"@ != "rect"@) by {
        assert("circle"@.len() != "rect"@.len());
    }
    assert("ellipse"@ != "g"@) by {
        assert("ellipse"@.len() != "g"@.len());
    }
    assert("ellipse"@ != "svg"@) by {
        assert("ellipse"@.len() != "svg"@.len());
    }
    assert("ellipse"@ != "a"@) by {
        assert("ellipse"@.len() != "a"@.len());
    }
    assert("ellipse"@ != "defs"@) by {
        assert("ellipse"@.len() != "defs"@.len());
    }
    assert("ellipse"@ != "symbol"@) by {
        assert("ellipse"@.len() != "symbol"@.len());
    }
    assert("ellipse"@ != "clipPath"@) by {
        assert("ellipse"@.len() != "clipPath"@.len());
    }
    assert("ellipse"@ != "mask"@) by {
        assert("ellipse"@.len() != "mask"@.len());
    }
    assert("ellipse"@ != "pattern"@) by {
        assert("ellipse"@[0] != "pattern"@[0]);
    }
    assert("ellipse"@ != "marker"@) by {
        assert("ellipse"@.len() != "marker"@.len());
    }
    assert("ellipse"@ != "style"@) by {
        assert("ellipse"@.len() != "style"@.len());
    }
    assert("ellipse"@ != "linearGradient"@) by {
        assert("ellipse"@.len() != "linearGradient"@.len());
    }
    assert("ellipse"@ != "radialGradient"@) by {
        assert("ellipse"@.len() != "radialGradient"@.len());
    }
    assert("ellipse"@ != "use"@) by {
        assert("ellipse"@.len() != "use"@.len());
    }
    assert("ellipse"@ != "text"@) by {
        assert("ellipse"@.len() != "text"@.len());
    }
    assert("ellipse"@ != "tspan"@) by {
        assert("ellipse"@.len() != "tspan"@.len());
    }
    assert("ellipse"@ != "image"@) by {
        assert("ellipse"@.len() != "image"@.len());
    }
    assert("ellipse"@ != "path"@) by {
        assert("ellipse"@.len() != "path"@.len());
    }
    assert("ellipse"@ != "line"@) by {
        assert("ellipse"@.len() != "line"@.len());
    }
    assert("ellipse"@ != "polyline"@) by {
        assert("ellipse"@.len() != "polyline"@.len());
    }
    assert("ellipse"@ != "polygon"@) by {
        assert("ellipse"@[0] != "polygon"@[0]);
    }
    assert("ellipse"@ != "rect"@) by {
        assert("ellipse"@.len() != "rect"@.len());
    }
    assert("ellipse"@ != "circle"@) by {
        assert("ellipse"@.len() != "circle"@.len());
    }
}

/// The kind of an element, by its tag name.
pub fn tag_kind(tag: &str) -> (k: TagKind)
    ensures
        k == spec_tag_kind(tag@),
{
    let cs = chars_of(tag);
    let n = cs.len();
    assert(cs@.subrange(0, n as int) =~= tag@);
    let is = |w: &str| -> (r: bool)
        ensures
            r == (tag@ == w@),
        { spells(&cs, 0, n, w) };
    if is("g") || is("svg") || is("a") {
        TagKind::Group
    } else if is("defs") || is("symbol") || is("clipPath") || is("mask") || is("pattern") || is(
        "marker",
    ) || is("style") || is("linearGradient") || is("radialGradient") {
        TagKind::Definition
    } else if is("use") {
        TagKind::Use
    } else if is("text") {
        TagKind::Text
    } else if is("tspan") || is("image") {
        TagKind::NonVector
    } else if is("path") {
        TagKind::Path
    } else if is("line") {
        TagKind::Line
    } else if is("polyline") {
        TagKind::Polyline
    } else if is("polygon") {
        TagKind::Polygon
    } else if is("rect") {
        TagKind::Rect
    } else if is("circle") {
        TagKind::Circle
    } else if is("ellipse") {
        TagKind::Ellipse
    } else {
        TagKind::Other
    }
}

/// The id a same-document reference `#id` names (white space aside).
pub open spec fn spec_href_id(href: Seq<char>) -> Option<Seq<char>> {
    let t = trim(href);
    if t.len() > 0 && t[0] == '#' {
        Some(t.drop_first())
    } else {
        None
    }
}

/// The id a `href` value `#id` names.
pub fn href_id(href: &str) -> (r: Option<String>)
    ensures
        match spec_href_id(href@) {
            Some(id) => r matches Some(s) && s@ == id,
            None => r is None,
        },
{
    let (cs, a, b) = trimmed(href);
    if a < b && cs[a] == '#' {
        let id = string_of(&cs, a + 1, b);
        assert(id@ =~= trim(href@).drop_first());
        Some(id)
    } else {
        None
    }
}

/// Channel `ch` of a color: 0 red, 1 green, otherwise blue.
pub open spec fn channel(c: Rgb, ch: int) -> int {
    if ch == 0 {
        c.r as int
    } else if ch == 1 {
        c.g as int
    } else {
        c.b as int
    }
}

/// The sum of channel `ch` over a list of colors.
pub open spec fn channel_sum(cs: Seq<Rgb>, ch: int) -> int
    decreases cs.len(),
{
    if cs.len() == 0 {
        0
    } else {
        channel_sum(cs.drop_last(), ch) + channel(cs.last(), ch)
    }
}

/// The average of a list of colors, each channel rounded down; `None` for
/// no colors.
pub open spec fn spec_average(cs: Seq<Rgb>) -> Option<Rgb> {
    if cs.len() == 0 {
        None
    } else {
        Some(
            Rgb {
                r: (channel_sum(cs, 0) / cs.len() as int) as u8,
                g: (channel_sum(cs, 1) / cs.len() as int) as u8,
                b: (channel_sum(cs, 2) / cs.len() as int) as u8,
            },
        )
    }
}

/// A prefix's channel sum is at most the whole list's.
proof fn lemma_prefix_sum_le(cs: Seq<Rgb>, ch: int, k: int)
    requires
        0 <= k <= cs.len(),
    ensures
        channel_sum(cs.subrange(0, k), ch) <= channel_sum(cs, ch),
    decreases cs.len() - k,
{
    if k < cs.len() {
        lemma_prefix_sum_le(cs, ch, k + 1);
        assert(cs.subrange(0, k + 1).drop_last() =~= cs.subrange(0, k));
    } else {
        assert(cs.subrange(0, k) =~= cs);
    }
}

/// The average color of a gradient's stops, the solid color that classic
/// EMF shows for it; the count and the channel sums are 32-bit.
pub fn average_color(cs: &[Rgb]) -> (r: Option<Rgb>)
    requires
        cs@.len() <= u32::MAX,
        channel_sum(cs@, 0) <= u32::MAX,
        channel_sum(cs@, 1) <= u32::MAX,
        channel_sum(cs@, 2) <= u32::MAX,
    ensures
        r == spec_average(cs@),
{
    let n = cs.len();
    if n == 0 {
        return None;
    }
    let mut sr: u32 = 0;
    let mut sg: u32 = 0;
    let mut sb: u32 = 0;
    let mut i: usize = 0;
    while i < n
        invariant
            n == cs@.len(),
            i <= n,
            sr == channel_sum(cs@.subrange(0, i as int), 0),
            sg == channel_sum(cs@.subrange(0, i as int), 1),
            sb == channel_sum(cs@.subrange(0, i as int), 2),
            channel_sum(cs@, 0) <= u32::MAX,
            channel_sum(cs@, 1) <= u32::MAX,
            channel_sum(cs@, 2) <= u32::MAX,
        decreases n - i,
    {
        let ghost pre = cs@.subrange(0, i as int);
        let ghost next = cs@.subrange(0, i + 1);
        proof {
            assert(next.drop_last() =~= pre);
            assert(next.last() == cs@[i as int]);
            lemma_prefix_sum_le(cs@, 0, i + 1);
            lemma_prefix_sum_le(cs@, 1, i + 1);
            lemma_prefix_sum_le(cs@, 2, i + 1);
        }
        let c = cs[i];
        sr = sr + c.r as u32;
        sg = sg + c.g as u32;
        sb = sb + c.b as u32;
        i = i + 1;
    }
    assert(cs@.subrange(0, n as int) =~= cs@);
    let d = n as u32;
    Some(Rgb::new((sr / d) as u8, (sg / d) as u8, (sb / d) as u8))
}

// ---------------------------------------------------------------------------
// Paint
// ---------------------------------------------------------------------------

/// `none`, in any ASCII case.
pub open spec fn is_none_word(t: Seq<char>) -> bool {
    &&& t.len() == 4
    &&& (t[0] == 'n' || t[0] == 'N')
    &&& (t[1] == 'o' || t[1] == 'O')
    &&& (t[2] == 'n' || t[2] == 'N')
    &&& (t[3] == 'e' || t[3] == 'E')
}

/// The average color of the first paint server named `id`.
pub open spec fn lookup_paint(paints: Seq<(String, Rgb)>, id: Seq<char>) -> Option<Rgb>
    decreases paints.len(),
{
    if paints.len() == 0 {
        None
    } else if paints[0].0@ == id {
        Some(paints[0].1)
    } else {
        lookup_paint(paints.drop_first(), id)
    }
}

/// The second `)`-separated piece of `t`: the text after its first `)` up to
/// the next one (or the end); empty when `t` has no `)`.
pub open spec fn second_piece(t: Seq<char>) -> Seq<char> {
    match find_from(t, seq![')'], 0) {
        None => seq![],
        Some(k) => {
            let r = t.subrange(k + 1, t.len() as int);
            match find_from(r, seq![')'], 0) {
                Some(m) => r.subrange(0, m),
                None => r,
            }
        },
    }
}

/// Where a paint value's color comes from.
#[derive(Debug, Clone, PartialEq, Eq)]
pub enum PaintSource {
    /// No paint (`none`, or an empty value).
    NoPaint,
    /// A known paint server, by its average color.
    Server(Rgb),
    /// The color that this text spells.
    Text(String),
}

/// The source of a paint value (trimmed): none for `none` or nothing; for a
/// `url(#id)` reference the known server's color, or else the text after the
/// reference's `)`, trimmed; otherwise the value itself.
pub open spec fn paint_source_ok(v: Seq<char>, paints: Seq<(String, Rgb)>, r: PaintSource) -> bool {
    let t = trim(v);
    if t.len() == 0 || is_none_word(t) {
        r is NoPaint
    } else {
        match spec_paint_ref_id(t) {
            Some(id) => match lookup_paint(paints, id) {
                Some(c) => r == PaintSource::Server(c),
                None => r matches PaintSource::Text(s) && s@ == trim(second_piece(t)),
            },
            None => r matches PaintSource::Text(s) && s@ == t,
        }
    }
}

fn find_paint(paints: &[(String, Rgb)], id: &[char]) -> (r: Option<Rgb>)
    ensures
        r == lookup_paint(paints@, id@),
{
    let n = paints.len();
    let mut i: usize = 0;
    assert(paints@.subrange(0, n as int) =~= paints@);
    while i < n
        invariant
            n == paints@.len(),
            i <= n,
            lookup_paint(paints@, id@) == lookup_paint(paints@.subrange(i as int, n as int), id@),
        decreases n - i,
    {
        let e = &paints[i];
        let name = chars_of(e.0.as_str());
        proof {
            let rest = paints@.subrange(i as int, n as int);
            assert(rest[0] == paints@[i as int]);
            assert(rest.drop_first() =~= paints@.subrange(i + 1, n as int));
        }
        if chars_eq(name.as_slice(), id) {
            return Some(e.1);
        }
        i = i + 1;
    }
    None
}

/// Decide where a paint value's color comes from.
pub fn paint_source(v: &str, paints: &[(String, Rgb)]) -> (r: PaintSource)
    ensures
        paint_source_ok(v@, paints@, r),
{
    let (cs, a, b) = trimmed(v);
    let tv = vstd::slice::slice_subrange(cs.as_slice(), a, b);
    let ghost t = trim(v@);
    assert(tv@ == t);
    if tv.len() == 0 || (tv.len() == 4 && (tv[0] == 'n' || tv[0] == 'N') && (tv[1] == 'o' || tv[1]
        == 'O') && (tv[2] == 'n' || tv[2] == 'N') && (tv[3] == 'e' || tv[3] == 'E')) {
        return PaintSource::NoPaint;
    }
    let ts = string_of(&cs, a, b);
    match paint_ref_id(ts.as_str()) {
        Some(id) => {
            let idc = chars_of(id.as_str());
            match find_paint(paints, idc.as_slice()) {
                Some(c) => PaintSource::Server(c),
                None => {
                    let close = vec![')'];
                    proof {
                        assert(close@ == seq![')']);
                    }
                    let tn = tv.len();
                    match find(tv, close.as_slice(), 0) {
                        None => {
                            proof {
                                assert(second_piece(t) =~= seq![]);
                                lemma_trim_empty();
                            }
                            PaintSource::Text(String::new())
                        },
                        Some(k) => {
                            proof {
                                lemma_find_from_some(t, seq![')'], 0);
                            }
                            let rest = vstd::slice::slice_subrange(tv, k + 1, tn);
                            let rn = rest.len();
                            let m = find(rest, close.as_slice(), 0);
                            proof {
                                lemma_find_from_some(rest@, seq![')'], 0);
                                assert(rest@.subrange(0, rn as int) =~= rest@);
                            }
                            let end = match m {
                                Some(m) => m,
                                None => rn,
                            };
                            let (p, q) = trim_bounds(rest, 0, end);
                            let piece = string_of(rest, p, q);
                            proof {
                                assert(rest@ == t.subrange(k + 1, t.len() as int));
                                assert(piece@ == trim(second_piece(t)));
                            }
                            PaintSource::Text(piece)
                        },
                    }
                },
            }
        },
        None => PaintSource::Text(ts),
    }
}

/// The red, green and blue channels `svgtypes` reads from a CSS color text.
pub uninterp spec fn svg_color(text: Seq<char>) -> Option<(u8, u8, u8)>;

/// `svgtypes::Color::from_str`: a CSS color (a keyword, `#rgb`, `#rrggbb`
/// and their alpha forms, `rgb()`, `hsl()`, ...) followed by nothing but
/// spaces. The contract names the red, green and blue channels it reads, a
/// function of the text alone; what the text must look like for a color is
/// not stated, and the alpha channel is not used.
#[verifier::external_body]
fn parse_color(text: &str) -> (r: Option<(u8, u8, u8)>)
    ensures
        r == svg_color(text@),
{
    match text.parse::<svgtypes::Color>() {
        Ok(c) => Some((c.red, c.green, c.blue)),
        Err(_) => None,
    }
}

proof fn lemma_trim_empty()
    ensures
        trim(seq![]) == Seq::<char>::empty(),
{
    assert(trim(seq![]) =~= Seq::<char>::empty());
}

/// The color of a paint source: a server's color, or the color its text spells.
pub open spec fn spec_paint_color(s: PaintSource) -> Option<Rgb> {
    match s {
        PaintSource::NoPaint => None,
        PaintSource::Server(c) => Some(c),
        PaintSource::Text(t) => match svg_color(t@) {
            Some((r, g, b)) => Some(Rgb { r, g, b }),
            None => None,
        },
    }
}

/// A paint value as a solid color: `none` gives `None`; `url(#id)` the known
/// gradient's average color, or the color written after the reference.
pub fn parse_paint(v: &str, paints: &[(String, Rgb)]) -> (r: Option<Rgb>)
    ensures
        exists|s: PaintSource| paint_source_ok(v@, paints@, s) && r == spec_paint_color(s),
{
    let s = paint_source(v, paints);
    let r = match &s {
        PaintSource::NoPaint => None,
        PaintSource::Server(c) => Some(*c),
        PaintSource::Text(t) => match parse_color(t.as_str()) {
            Some((r, g, b)) => Some(Rgb::new(r, g, b)),
            None => None,
        },
    };
    assert(paint_source_ok(v@, paints@, s) && r == spec_paint_color(s));
    r
}

} // verus!
