//! Byte-lossless source embedding: the original EMF travels inside the SVG
//! as base64 text in a `<metadata>` element, and the original SVG travels
//! inside the EMF as a private OMNI comment.

use vstd::prelude::*;
use base64::Engine;
use crate::text_util::{
    chars_of, find, find_from, lemma_find_from_first, lemma_find_from_none, lemma_find_from_some,
    occurs_at, is_white_space, is_whitespace, push_char, push_chars, string_of,
    without_white_space,
};

verus! {

broadcast use vstd::string::group_string_axioms;

/// Marker id of the `<metadata>` element that carries the original EMF bytes
/// (base64) for the byte-lossless round trip.
pub const EMF_SOURCE_METADATA_ID: &'static str = "omnidoc-emf-source";

// ---------------------------------------------------------------------------
// Base64 (the `base64` crate, standard alphabet with padding)
// ---------------------------------------------------------------------------

/// The text `base64::engine::general_purpose::STANDARD.encode` gives for `data`.
pub uninterp spec fn base64_encoding(data: Seq<u8>) -> Seq<char>;

/// What `base64::engine::general_purpose::STANDARD.decode` gives for the
/// UTF-8 bytes of `text`: the decoded bytes, or `None` where it reports an error.
pub uninterp spec fn base64_decoding(text: Seq<char>) -> Option<Seq<u8>>;

/// The model of optional bytes.
pub open spec fn opt_bytes(r: Option<Vec<u8>>) -> Option<Seq<u8>> {
    match r {
        Some(v) => Some(v@),
        None => None,
    }
}

/// A character of the standard base64 alphabet, or the padding `=`.
pub open spec fn is_base64_char(c: char) -> bool {
    let u = c as u32;
    ||| 0x41 <= u <= 0x5a
    ||| 0x61 <= u <= 0x7a
    ||| 0x30 <= u <= 0x39
    ||| u == 0x2b
    ||| u == 0x2f
    ||| u == 0x3d
}

/// `STANDARD.encode(data)`: the padded base64 text of `data`, four
/// characters per started group of three bytes, all from the standard
/// alphabet or `=`, which `STANDARD.decode` turns back into `data`. The
/// encoder panics when that length overflows `usize`, which `requires` rules
/// out.
#[verifier::external_body]
fn base64_encode(data: &[u8]) -> (s: String)
    requires
        4 * ((data@.len() + 2) / 3) <= usize::MAX,
    ensures
        s@ == base64_encoding(data@),
        base64_decoding(s@) == Some(data@),
        s@.len() == 4 * ((data@.len() + 2) / 3),
        forall|i: int| 0 <= i < s@.len() ==> is_base64_char(#[trigger] s@[i]),
{
    base64::engine::general_purpose::STANDARD.encode(data)
}

/// `STANDARD.decode(text)`, with the error mapped to `None`. Decoding the
/// encoder's own output gives back the encoded bytes.
#[verifier::external_body]
fn base64_decode(text: &str) -> (r: Option<Vec<u8>>)
    ensures
        opt_bytes(r) == base64_decoding(text@),
        forall|d: Seq<u8>| text@ == #[trigger] base64_encoding(d) ==> opt_bytes(r) == Some(d),
{
    base64::engine::general_purpose::STANDARD.decode(text).ok()
}

// ---------------------------------------------------------------------------
// The metadata element
// ---------------------------------------------------------------------------

pub open spec fn svg_tag_open() -> Seq<char> {
    "<svg"@
}

pub open spec fn tag_close() -> Seq<char> {
    ">"@
}

/// `id="omnidoc-emf-source"`
pub open spec fn source_anchor() -> Seq<char> {
    "id=\"omnidoc-emf-source\""@
}

/// The opening of the metadata element, on a line of its own.
pub open spec fn metadata_open() -> Seq<char> {
    "\n  <metadata id=\"omnidoc-emf-source\" encoding=\"base64\">"@
}

pub open spec fn metadata_close() -> Seq<char> {
    "</metadata>"@
}

/// The index just past the `>` that ends the first `<svg` tag of `svg`.
pub open spec fn svg_tag_end(svg: Seq<char>) -> Option<int> {
    match find_from(svg, svg_tag_open(), 0) {
        Some(open) => match find_from(svg, tag_close(), open) {
            Some(gt) => Some(gt + 1),
            None => None,
        },
        None => None,
    }
}

/// `svg` with a metadata element holding the base64 of `emf` inserted right
/// after its opening `<svg ...>` tag; `svg` itself when it has no such tag.
pub open spec fn spec_embed(svg: Seq<char>, emf: Seq<u8>) -> Seq<char> {
    match svg_tag_end(svg) {
        Some(pos) => svg.subrange(0, pos) + metadata_open() + base64_encoding(emf)
            + metadata_close() + svg.subrange(pos, svg.len() as int),
        None => svg,
    }
}

/// The metadata text carried by `svg`: the text between the `>` that follows
/// the first source anchor and the next `</metadata>`, white space removed;
/// `None` when a part is missing.
pub open spec fn spec_extract_text(svg: Seq<char>) -> Option<Seq<char>> {
    match find_from(svg, source_anchor(), 0) {
        None => None,
        Some(id) => match find_from(svg, tag_close(), id) {
            None => None,
            Some(gt) => match find_from(svg, metadata_close(), gt + 1) {
                None => None,
                Some(end) => Some(without_white_space(svg.subrange(gt + 1, end))),
            },
        },
    }
}

/// The EMF carried by `svg`: its metadata text decoded from base64; `None`
/// when there is no such text or it does not decode.
pub open spec fn spec_extract(svg: Seq<char>) -> Option<Seq<u8>> {
    match spec_extract_text(svg) {
        Some(t) => base64_decoding(t),
        None => None,
    }
}

fn lit_chars(s: &str) -> (v: Vec<char>)
    ensures
        v@ == s@,
{
    chars_of(s)
}

/// Insert a `<metadata>` element holding the base64 of the original EMF right
/// after the opening `<svg ...>` tag.
pub fn embed_emf_source(svg: &str, emf: &[u8]) -> (out: String)
    requires
        4 * ((emf@.len() + 2) / 3) <= usize::MAX,
    ensures
        out@ == spec_embed(svg@, emf@),
        svg_tag_end(svg@) is Some ==> source_recoverable(emf@),
{
    let cs = chars_of(svg);
    let _n = cs.len();
    let open_tag = lit_chars("<svg");
    let close = lit_chars(">");
    // Find the end of the opening <svg ...> tag.
    if let Some(open) = find(cs.as_slice(), open_tag.as_slice(), 0) {
        if let Some(gt) = find(cs.as_slice(), close.as_slice(), open) {
            proof {
                lemma_find_from_some(cs@, close@, open as int);
                reveal_strlit(">");
            }
            let pos = gt + 1;
            let b64 = base64_encode(emf);
            let mut out = string_of(cs.as_slice(), 0, pos);
            push_chars(&mut out, lit_chars("\n  <metadata id=\"omnidoc-emf-source\" encoding=\"base64\">").as_slice());
            push_chars(&mut out, chars_of(b64.as_str()).as_slice());
            push_chars(&mut out, lit_chars("</metadata>").as_slice());
            push_chars(&mut out, vstd::slice::slice_subrange(cs.as_slice(), pos, cs.len()));
            proof {
                assert(svg_tag_end(svg@) == Some(pos as int));
                assert(out@ =~= cs@.subrange(0, pos as int) + metadata_open() + base64_encoding(emf@)
                    + metadata_close() + cs@.subrange(pos as int, cs@.len() as int));
            }
            return out;
        }
    }
    svg.to_owned()
}

/// The characters of `cs[from..to]` that are not white space, as a string.
fn strip_white_space(cs: &[char], from: usize, to: usize) -> (s: String)
    requires
        from <= to <= cs@.len(),
    ensures
        s@ == without_white_space(cs@.subrange(from as int, to as int)),
{
    let mut s = String::new();
    let mut i = from;
    proof {
        reveal(Seq::filter);
        assert(cs@.subrange(from as int, from as int) =~= Seq::<char>::empty());
    }
    while i < to
        invariant
            from <= i <= to <= cs@.len(),
            s@ == without_white_space(cs@.subrange(from as int, i as int)),
        decreases to - i,
    {
        let c = cs[i];
        proof {
            reveal(Seq::filter);
            assert(cs@.subrange(from as int, i + 1).drop_last() =~= cs@.subrange(from as int, i as int));
        }
        if !is_whitespace(c) {
            push_char(&mut s, c);
        }
        i = i + 1;
    }
    s
}

/// Extract and decode an embedded EMF (base64) from an SVG `<metadata>` block,
/// if present.
pub fn extract_embedded_emf(svg: &str) -> (r: Option<Vec<u8>>)
    ensures
        opt_bytes(r) == spec_extract(svg@),
        forall|d: Seq<u8>|
            spec_extract_text(svg@) == Some(#[trigger] base64_encoding(d)) ==> opt_bytes(r) == Some(d),
{
    let cs = chars_of(svg);
    let _n = cs.len();
    let anchor = lit_chars("id=\"omnidoc-emf-source\"");
    let close = lit_chars(">");
    let end_tag = lit_chars("</metadata>");
    let id_pos = find(cs.as_slice(), anchor.as_slice(), 0)?;
    // The metadata text is between the next '>' after the id and the closing tag.
    let gt = find(cs.as_slice(), close.as_slice(), id_pos)?;
    proof {
        lemma_find_from_some(cs@, close@, id_pos as int);
        reveal_strlit(">");
    }
    let after_tag = gt + 1;
    let end = find(cs.as_slice(), end_tag.as_slice(), after_tag)?;
    proof {
        lemma_find_from_some(cs@, end_tag@, after_tag as int);
    }
    let b64 = strip_white_space(cs.as_slice(), after_tag, end);
    base64_decode(b64.as_str())
}

/// Every character of `t` belongs to the base64 alphabet (or is `=`).
pub open spec fn is_base64_text(t: Seq<char>) -> bool {
    forall|i: int| 0 <= i < t.len() ==> is_base64_char(#[trigger] t[i])
}

/// What the encoder's contract gives for `emf`: its text is made of the
/// base64 alphabet, and the decoder turns it back into `emf`.
pub open spec fn source_recoverable(emf: Seq<u8>) -> bool {
    is_base64_text(base64_encoding(emf)) && base64_decoding(base64_encoding(emf)) == Some(emf)
}

/// Whether `svg` has an opening `<svg ...>` tag before whose end the source
/// anchor does not occur.
pub open spec fn can_carry_source(svg: Seq<char>) -> bool {
    svg_tag_end(svg) matches Some(pos) && find_from(svg.subrange(0, pos), source_anchor(), 0) is None
}

proof fn lemma_no_white_space(t: Seq<char>)
    requires
        is_base64_text(t),
    ensures
        without_white_space(t) == t,
    decreases t.len(),
{
    reveal(Seq::filter);
    if t.len() > 0 {
        lemma_no_white_space(t.drop_last());
        assert(t.drop_last().push(t.last()) =~= t);
    }
}

/// The metadata element inserted after the opening tag of an SVG that can
/// carry a source gives its text back, for any base64 text.
pub proof fn lemma_extract_inserted(svg: Seq<char>, t: Seq<char>)
    requires
        can_carry_source(svg),
        is_base64_text(t),
    ensures
        spec_extract_text(
            svg.subrange(0, svg_tag_end(svg)->0) + metadata_open() + t + metadata_close()
                + svg.subrange(svg_tag_end(svg)->0, svg.len() as int),
        ) == Some(t),
{
    let pos = svg_tag_end(svg)->0;
    let p = svg.subrange(0, pos);
    let q = svg.subrange(pos, svg.len() as int);
    let mo = metadata_open();
    let mc = metadata_close();
    let e = p + mo + t + mc + q;
    let anchor = source_anchor();
    reveal_strlit("\n  <metadata id=\"omnidoc-emf-source\" encoding=\"base64\">");
    reveal_strlit("id=\"omnidoc-emf-source\"");
    reveal_strlit("</metadata>");
    reveal_strlit(">");
    reveal_strlit("<svg");
    assert(mo.len() == 55);
    assert(anchor.len() == 23);
    assert(mc.len() == 11);
    let open = find_from(svg, svg_tag_open(), 0)->0;
    lemma_find_from_some(svg, svg_tag_open(), 0);
    lemma_find_from_some(svg, tag_close(), open);
    let gt = pos - 1;
    assert(svg.subrange(gt, gt + 1)[0] == svg[gt]);
    assert(svg[pos - 1] == '>');
    assert(e[pos - 1] == '>');
    assert forall|j: int| 0 <= j < e.len() implies #[trigger] e[j] == (if j < pos {
        p[j]
    } else if j < pos + 55 {
        mo[j - pos]
    } else if j < pos + 55 + t.len() {
        t[j - pos - 55]
    } else if j < pos + 66 + t.len() {
        mc[j - pos - 55 - t.len()]
    } else {
        q[j - pos - 66 - t.len()]
    }) by {}
    // The anchor: first at pos + 13.
    assert(e.subrange(pos + 13, pos + 36) =~= anchor);
    assert forall|i: int| 0 <= i < pos + 13 implies !occurs_at(e, anchor, i) by {
        if i + 23 <= pos {
            lemma_find_from_none(p, anchor, 0, i);
            assert(!occurs_at(p, anchor, i));
            if occurs_at(e, anchor, i) {
                assert(p.subrange(i, i + 23) =~= e.subrange(i, i + 23));
            }
        } else if i < pos {
            if occurs_at(e, anchor, i) {
                assert(e.subrange(i, i + 23)[pos - 1 - i] == e[pos - 1]);
            }
        } else {
            if occurs_at(e, anchor, i) {
                assert(e.subrange(i, i + 23)[0] == e[i]);
            }
        }
    }
    lemma_find_from_first(e, anchor, 0, pos + 13);
    // The '>' closing the metadata start tag: at pos + 54.
    assert(e.subrange(pos + 54, pos + 55) =~= tag_close());
    assert forall|i: int| pos + 13 <= i < pos + 54 implies !occurs_at(e, tag_close(), i) by {
        if occurs_at(e, tag_close(), i) {
            assert(e.subrange(i, i + 1)[0] == e[i]);
        }
    }
    lemma_find_from_first(e, tag_close(), pos + 13, pos + 54);
    // The closing tag: right after the text.
    let a = pos + 55;
    assert(e.subrange(a + t.len(), a + t.len() + 11) =~= mc);
    assert forall|i: int| a <= i < a + t.len() implies !occurs_at(e, mc, i) by {
        if occurs_at(e, mc, i) {
            assert(e.subrange(i, i + 11)[0] == e[i]);
            assert(is_base64_char(t[i - a]));
        }
    }
    lemma_find_from_first(e, mc, a, a + t.len());
    assert(e.subrange(a, a + t.len()) =~= t);
    lemma_no_white_space(t);
}

/// Extracting from an SVG that an EMF was embedded in hands the base64
/// decoder exactly the encoder's text for that EMF, whenever the SVG has an
/// opening `<svg ...>` tag before whose end the source anchor does not occur
/// (the encoder's text is always made of the base64 alphabet).
pub proof fn lemma_embed_then_extract(svg: Seq<char>, emf: Seq<u8>)
    requires
        can_carry_source(svg),
        is_base64_text(base64_encoding(emf)),
    ensures
        spec_extract_text(spec_embed(svg, emf)) == Some(base64_encoding(emf)),
{
    lemma_extract_inserted(svg, base64_encoding(emf));
}

/// EMF -> SVG -> EMF in lossless mode: the EMF embedded in an SVG is
/// extracted again exactly, whenever the SVG has an opening `<svg ...>` tag
/// before whose end the source anchor does not occur (the encoder gives
/// `source_recoverable` for every EMF it encodes).
pub proof fn lemma_emf_source_round_trip(svg: Seq<char>, emf: Seq<u8>)
    requires
        can_carry_source(svg),
        source_recoverable(emf),
    ensures
        spec_extract(spec_embed(svg, emf)) == Some(emf),
{
    lemma_embed_then_extract(svg, emf);
}

} // verus!
