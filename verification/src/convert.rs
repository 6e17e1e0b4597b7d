//! The two conversion directions around the shared vector model, with their
//! byte-lossless mode: EMF -> SVG recovers an embedded original SVG or embeds
//! the original EMF; SVG -> EMF recovers an embedded original EMF or embeds
//! the original SVG.
//!
//! Drawing (record playback and SVG output, SVG parsing and record
//! emission) is done by the caller-supplied `render` and `convert`
//! functions; this module owns every decision around them.

use vstd::prelude::*;
use vstd::string::StringSliceAdditionalSpecFns;
use vstd::utf8::{decode_utf8, encode_utf8, group_utf8_lib, valid_utf8};
use crate::error::EmfError;
use crate::reader::{res_view, spec_parse_file, EmfFile, EmfFileModel};
use crate::records::{
    omni_comment_data, omni_payload_of, records_view, EmfHeader, EmfRecord, RecordModel,
};
use crate::source_embed::{
    embed_emf_source, extract_embedded_emf, opt_bytes, source_recoverable, spec_embed, spec_extract,
    svg_tag_end,
};
use crate::roundtrip::{lemma_write_then_parse, stream_round_trips};
use crate::types::{OMNI_COMMENT_MAGIC, OMNI_KIND_SVG};
use crate::wire::{lemma_read_u32, u32_at, u32_le};
use crate::writer::{spec_write_emf, writable, write_emf};

verus! {

broadcast use vstd::string::group_string_axioms;

/// `String::from_utf8`, with the error mapped to `None`: the text whose UTF-8
/// encoding is `bytes`, exactly when `bytes` is valid UTF-8.
#[verifier::external_body]
fn string_from_utf8(bytes: Vec<u8>) -> (r: Option<String>)
    ensures
        r is Some <==> valid_utf8(bytes@),
        r matches Some(s) ==> s@ == decode_utf8(bytes@),
{
    String::from_utf8(bytes).ok()
}

/// Options for EMF -> SVG conversion.
#[derive(Debug, Clone, Copy, Default)]
pub struct Emf2SvgOptions {
    /// Byte-lossless mode: if the EMF embeds an original SVG document, return
    /// it verbatim; otherwise embed the original EMF bytes (base64) in the SVG
    /// so a later SVG -> EMF can reproduce this file exactly.
    pub lossless: bool,
}

/// SVG text plus non-fatal compatibility information collected during EMF playback.
#[derive(Debug, Clone, PartialEq)]
pub struct EmfToSvgResult {
    pub svg: String,
    pub warnings: Vec<String>,
    pub recovered_embedded_source: bool,
}

/// EMF bytes plus non-fatal compatibility information collected while parsing SVG.
#[derive(Debug, Clone, PartialEq)]
pub struct SvgToEmfResult {
    pub bytes: Vec<u8>,
    pub warnings: Vec<String>,
    pub recovered_embedded_source: bool,
}

/// Whether a record is an OMNI comment of the SVG kind whose payload is
/// valid UTF-8.
pub open spec fn is_svg_source(r: RecordModel) -> bool {
    omni_payload_of(r) matches Some((kind, p)) && kind == OMNI_KIND_SVG && valid_utf8(p)
}

/// The original SVG carried by a record list: the text of the first record
/// that is an SVG source comment.
pub open spec fn embedded_svg_source(rs: Seq<RecordModel>) -> Option<Seq<char>>
    decreases rs.len(),
{
    if rs.len() == 0 {
        None
    } else if is_svg_source(rs[0]) {
        match omni_payload_of(rs[0]) {
            Some((_, p)) => Some(decode_utf8(p)),
            None => None,
        }
    } else {
        embedded_svg_source(rs.subrange(1, rs.len() as int))
    }
}

/// The first SVG source among `records[from..]`.
fn find_svg_source(records: &Vec<EmfRecord>, from: usize) -> (r: Option<String>)
    requires
        from <= records@.len(),
    ensures
        match r {
            Some(s) => embedded_svg_source(
                records_view(records@).subrange(from as int, records@.len() as int),
            ) == Some(s@),
            None => embedded_svg_source(
                records_view(records@).subrange(from as int, records@.len() as int),
            ) is None,
        },
    decreases records@.len() - from,
{
    if from == records.len() {
        return None;
    }
    let ghost rest = records_view(records@).subrange(from as int, records@.len() as int);
    proof {
        assert(rest[0] == records@[from as int]@);
        assert(rest.subrange(1, rest.len() as int) =~= records_view(records@).subrange(
            from + 1,
            records@.len() as int,
        ));
    }
    if let Some((kind, payload)) = records[from].as_omni_payload() {
        if kind == OMNI_KIND_SVG {
            if let Some(svg) = string_from_utf8(vstd::slice::slice_to_vec(payload)) {
                return Some(svg);
            }
        }
    }
    find_svg_source(records, from + 1)
}

/// What EMF -> SVG gives for a parsed file when no embedded source is
/// returned: the rendered text (with the original EMF embedded in lossless
/// mode) and the rendering's warnings.
pub open spec fn rendered_result(
    rendered: (String, Vec<String>),
    data: Seq<u8>,
    opts: Emf2SvgOptions,
    res: EmfToSvgResult,
) -> bool {
    &&& res.svg@ == (if opts.lossless {
        spec_embed(rendered.0@, data)
    } else {
        rendered.0@
    })
    &&& res.warnings@ == rendered.1@
    &&& !res.recovered_embedded_source
    &&& (opts.lossless && svg_tag_end(rendered.0@) is Some ==> source_recoverable(data))
}

/// What EMF -> SVG with a report gives for the bytes `data`, where
/// `render` plays a parsed file back: the parse error, the embedded SVG source
/// (lossless mode), or the rendered result.
pub open spec fn report_outcome<F: Fn(&EmfFile) -> (String, Vec<String>)>(
    data: Seq<u8>,
    opts: Emf2SvgOptions,
    render: F,
    r: Result<EmfToSvgResult, EmfError>,
) -> bool {
    match spec_parse_file(data) {
        Err(e) => r == Err::<EmfToSvgResult, EmfError>(e),
        Ok(file) => r matches Ok(res) && if opts.lossless && embedded_svg_source(file.records) is Some {
            &&& res.svg@ == embedded_svg_source(file.records)->0
            &&& res.warnings@.len() == 0
            &&& res.recovered_embedded_source
        } else {
            exists|f: EmfFile, out: (String, Vec<String>)|
                f@ == file && #[trigger] render.ensures((&f,), out) && rendered_result(
                    out,
                    data,
                    opts,
                    res,
                )
        },
    }
}

/// Convert EMF and retain warnings instead of hiding skipped record types.
/// `render` plays a parsed file back and returns its SVG text and warnings.
pub fn emf_to_svg_with_report<F: Fn(&EmfFile) -> (String, Vec<String>)>(
    data: &[u8],
    opts: Emf2SvgOptions,
    render: F,
) -> (r: Result<EmfToSvgResult, EmfError>)
    requires
        forall|f: &EmfFile| #[trigger] render.requires((f,)),
        opts.lossless ==> 4 * ((data@.len() + 2) / 3) <= usize::MAX,
    ensures
        report_outcome(data@, opts, render, r),
{
    let file = EmfFile::parse(data)?;
    proof {
        assert(records_view(file.records@).subrange(0, file.records@.len() as int) =~= file@.records);
    }
    if opts.lossless {
        // If this EMF was produced from an SVG in lossless mode, the original
        // SVG is embedded verbatim; return it for an exact round trip.
        if let Some(svg) = find_svg_source(&file.records, 0) {
            return Ok(EmfToSvgResult { svg, warnings: Vec::new(), recovered_embedded_source: true });
        }
    }
    let out = render(&file);
    let (svg, warnings) = out;
    let svg = if opts.lossless {
        embed_emf_source(svg.as_str(), data)
    } else {
        svg
    };
    let res = EmfToSvgResult { svg, warnings, recovered_embedded_source: false };
    proof {
        assert(rendered_result(out, data@, opts, res));
    }
    Ok(res)
}

/// What EMF -> SVG gives for the bytes `data`: the SVG text of
/// `report_outcome`.
pub open spec fn svg_outcome<F: Fn(&EmfFile) -> (String, Vec<String>)>(
    data: Seq<u8>,
    opts: Emf2SvgOptions,
    render: F,
    r: Result<String, EmfError>,
) -> bool {
    match spec_parse_file(data) {
        Err(e) => r == Err::<String, EmfError>(e),
        Ok(file) => r matches Ok(svg) && if opts.lossless && embedded_svg_source(file.records) is Some {
            svg@ == embedded_svg_source(file.records)->0
        } else {
            exists|f: EmfFile, out: (String, Vec<String>)|
                f@ == file && #[trigger] render.ensures((&f,), out) && svg@ == (if opts.lossless {
                    spec_embed(out.0@, data)
                } else {
                    out.0@
                }) && (opts.lossless && svg_tag_end(out.0@) is Some ==> source_recoverable(data))
        },
    }
}

/// Convert an EMF byte buffer to SVG with options (incl. byte-lossless mode).
pub fn emf_to_svg_with<F: Fn(&EmfFile) -> (String, Vec<String>)>(
    data: &[u8],
    opts: Emf2SvgOptions,
    render: F,
) -> (r: Result<String, EmfError>)
    requires
        forall|f: &EmfFile| #[trigger] render.requires((f,)),
        opts.lossless ==> 4 * ((data@.len() + 2) / 3) <= usize::MAX,
    ensures
        svg_outcome(data@, opts, render, r),
{
    match emf_to_svg_with_report(data, opts, render) {
        Ok(res) => Ok(res.svg),
        Err(e) => Err(e),
    }
}

/// Convert an EMF byte buffer directly to an SVG document string: the
/// outcome of `emf_to_svg_with` under the default options (lossless mode off),
/// that is the rendered text, or the parse error.
pub fn emf_to_svg<F: Fn(&EmfFile) -> (String, Vec<String>)>(data: &[u8], render: F) -> (r: Result<
    String,
    EmfError,
>)
    requires
        forall|f: &EmfFile| #[trigger] render.requires((f,)),
    ensures
        svg_outcome(data@, Emf2SvgOptions { lossless: false }, render, r),
        match spec_parse_file(data@) {
            Err(e) => r == Err::<String, EmfError>(e),
            Ok(file) => r matches Ok(svg) && exists|f: EmfFile, out: (String, Vec<String>)|
                f@ == file && #[trigger] render.ensures((&f,), out) && svg@ == out.0@,
        },
{
    emf_to_svg_with(data, Emf2SvgOptions { lossless: false }, render)
}

/// The record list with the OMNI comment carrying the SVG text `svg` (its
/// UTF-8 bytes) inserted before the last record (the trailing EOF).
pub open spec fn with_svg_source(rs: Seq<RecordModel>, svg: Seq<u8>) -> Seq<RecordModel> {
    let pos = if rs.len() == 0 {
        0
    } else {
        rs.len() - 1
    };
    rs.insert(pos, RecordModel::Comment(omni_comment_data(OMNI_KIND_SVG, svg)))
}

/// Whether a converter's output can be written: no header record among the
/// records and room for one more record in the 32-bit count.
pub open spec fn emittable<E>(out: Result<(EmfHeader, Vec<EmfRecord>, Vec<String>), E>) -> bool {
    out matches Ok((h, rs, w)) ==> writable(rs@) && rs@.len() + 2 < u32::MAX
}

/// What SVG -> EMF gives for a converter output when no embedded EMF is
/// returned: the converter's error, or the written records (with the
/// original SVG inserted in lossless mode) and the converter's warnings.
pub open spec fn emitted_result<E>(
    out: Result<(EmfHeader, Vec<EmfRecord>, Vec<String>), E>,
    svg: Seq<u8>,
    lossless: bool,
    r: Result<SvgToEmfResult, E>,
) -> bool {
    match out {
        Err(e) => r == Err::<SvgToEmfResult, E>(e),
        Ok((h, rs, w)) => r matches Ok(res) && res.bytes@ == spec_write_emf(
            h,
            if lossless {
                with_svg_source(records_view(rs@), svg)
            } else {
                records_view(rs@)
            },
        ) && res.warnings@ == w@ && !res.recovered_embedded_source,
    }
}

/// What SVG -> EMF with a report gives for the text `svg`, where `convert`
/// parses it: the embedded original EMF, or what the converter's output
/// makes.
pub open spec fn svg_report_outcome<E, F: Fn(&str) -> Result<(EmfHeader, Vec<EmfRecord>, Vec<String>), E>>(
    svg: &str,
    lossless: bool,
    convert: F,
    r: Result<SvgToEmfResult, E>,
) -> bool {
    match spec_extract(svg@) {
        Some(d) => r matches Ok(res) && res.bytes@ == d && res.warnings@.len() == 0
            && res.recovered_embedded_source,
        None => exists|out: Result<(EmfHeader, Vec<EmfRecord>, Vec<String>), E>|
            #[trigger] convert.ensures((svg,), out) && emitted_result(
                out,
                svg.spec_bytes(),
                lossless,
                r,
            ),
    }
}

/// Convert SVG and retain warnings instead of silently discarding
/// compatibility losses. `convert` parses the SVG and emits its header,
/// records (EOF last) and warnings.
pub fn svg_to_emf_with_report<E, F: Fn(&str) -> Result<(EmfHeader, Vec<EmfRecord>, Vec<String>), E>>(
    svg: &str,
    lossless: bool,
    convert: F,
) -> (r: Result<SvgToEmfResult, E>)
    requires
        forall|s: &str| #[trigger] convert.requires((s,)),
        forall|s: &str, out: Result<(EmfHeader, Vec<EmfRecord>, Vec<String>), E>|
            #[trigger] convert.ensures((s,), out) ==> emittable(out),
    ensures
        svg_report_outcome(svg, lossless, convert, r),
{
    // Byte-lossless fast path: if the SVG embeds an original EMF (produced by
    // EMF -> SVG in lossless mode), reproduce it verbatim.
    if let Some(emf) = extract_embedded_emf(svg) {
        return Ok(SvgToEmfResult { bytes: emf, warnings: Vec::new(), recovered_embedded_source: true });
    }
    let out = convert(svg);
    match out {
        Err(e) => Err(e),
        Ok((header, records, warnings)) => {
            let mut records = records;
            let bytes = if lossless {
                // Embed the original SVG in the EMF so EMF -> SVG can recover it.
                let comment = EmfRecord::omni_comment(OMNI_KIND_SVG, svg.as_bytes());
                // Insert before the trailing EOF record.
                let pos = records.len().saturating_sub(1);
                let ghost before = records@;
                records.insert(pos, comment);
                proof {
                    assert(records_view(records@) =~= with_svg_source(
                        records_view(before),
                        svg.spec_bytes(),
                    ));
                    assert forall|i: int| 0 <= i < records@.len() implies !(
                    #[trigger] records@[i]@ is Header) by {
                        if i < pos {
                            assert(records@[i] == before[i]);
                        } else if i > pos {
                            assert(records@[i] == before[i - 1]);
                        }
                    }
                }
                write_emf(&header, records.as_slice())
            } else {
                write_emf(&header, records.as_slice())
            };
            Ok(SvgToEmfResult { bytes, warnings, recovered_embedded_source: false })
        },
    }
}

/// Convert SVG text directly to an EMF byte buffer.
pub fn svg_to_emf<E, F: Fn(&str) -> Result<(EmfHeader, Vec<EmfRecord>, Vec<String>), E>>(
    svg: &str,
    lossless: bool,
    convert: F,
) -> (r: Result<Vec<u8>, E>)
    requires
        forall|s: &str| #[trigger] convert.requires((s,)),
        forall|s: &str, out: Result<(EmfHeader, Vec<EmfRecord>, Vec<String>), E>|
            #[trigger] convert.ensures((s,), out) ==> emittable(out),
    ensures
        match spec_extract(svg@) {
            Some(d) => r matches Ok(bytes) && bytes@ == d,
            None => exists|out: Result<(EmfHeader, Vec<EmfRecord>, Vec<String>), E>|
                #[trigger] convert.ensures((svg,), out) && match out {
                    Err(e) => r == Err::<Vec<u8>, E>(e),
                    Ok((h, rs, w)) => r matches Ok(bytes) && bytes@ == spec_write_emf(
                        h,
                        if lossless {
                            with_svg_source(records_view(rs@), svg.spec_bytes())
                        } else {
                            records_view(rs@)
                        },
                    ),
                },
        },
{
    let res = svg_to_emf_with_report(svg, lossless, convert);
    match res {
        Ok(x) => Ok(x.bytes),
        Err(e) => Err(e),
    }
}

proof fn lemma_no_svg_source(rs: Seq<RecordModel>, i: int)
    requires
        embedded_svg_source(rs) is None,
        0 <= i < rs.len(),
    ensures
        !is_svg_source(rs[i]),
    decreases rs.len(),
{
    if i > 0 {
        let rest = rs.subrange(1, rs.len() as int);
        lemma_no_svg_source(rest, i - 1);
        assert(rest[i - 1] == rs[i]);
    }
}

proof fn lemma_first_svg_source(rs: Seq<RecordModel>, k: int)
    requires
        0 <= k < rs.len(),
        is_svg_source(rs[k]),
        forall|i: int| 0 <= i < k ==> !is_svg_source(#[trigger] rs[i]),
    ensures
        embedded_svg_source(rs) == match omni_payload_of(rs[k]) {
            Some((_, p)) => Some(decode_utf8(p)),
            None => None,
        },
    decreases k,
{
    if k > 0 {
        let rest = rs.subrange(1, rs.len() as int);
        assert forall|i: int| 0 <= i < k - 1 implies !is_svg_source(#[trigger] rest[i]) by {
            assert(rest[i] == rs[i + 1]);
        }
        lemma_first_svg_source(rest, k - 1);
        assert(rest[k - 1] == rs[k]);
    }
}

proof fn lemma_omni_svg_comment(svg: Seq<char>)
    ensures
        omni_payload_of(RecordModel::Comment(omni_comment_data(OMNI_KIND_SVG, encode_utf8(svg))))
            == Some((OMNI_KIND_SVG, encode_utf8(svg))),
        is_svg_source(RecordModel::Comment(omni_comment_data(OMNI_KIND_SVG, encode_utf8(svg)))),
{
    broadcast use group_utf8_lib;

    let p = encode_utf8(svg);
    let d = omni_comment_data(OMNI_KIND_SVG, p);
    lemma_read_u32(seq![], OMNI_COMMENT_MAGIC, u32_le(OMNI_KIND_SVG) + p);
    assert(d =~= seq![] + u32_le(OMNI_COMMENT_MAGIC) + (u32_le(OMNI_KIND_SVG) + p));
    lemma_read_u32(u32_le(OMNI_COMMENT_MAGIC), OMNI_KIND_SVG, p);
    assert(d.subrange(8, d.len() as int) =~= p);
}

/// SVG -> EMF in lossless mode and back: the records a converter emits, with
/// the SVG inserted as its source comment and written out, parse back to a
/// file whose embedded SVG source is that SVG, whenever the written stream
/// reads back and the converter's own records carry no SVG source.
pub proof fn lemma_svg_source_round_trip(h: EmfHeader, rs: Seq<RecordModel>, svg: Seq<char>)
    requires
        stream_round_trips(with_svg_source(rs, encode_utf8(svg))),
        embedded_svg_source(rs) is None,
    ensures
        spec_parse_file(spec_write_emf(h, with_svg_source(rs, encode_utf8(svg)))) matches Ok(f)
            && embedded_svg_source(f.records) == Some(svg),
{
    broadcast use group_utf8_lib;

    let ws = with_svg_source(rs, encode_utf8(svg));
    lemma_write_then_parse(h, ws);
    let pos = if rs.len() == 0 {
        0
    } else {
        rs.len() - 1
    };
    lemma_omni_svg_comment(svg);
    assert forall|i: int| 0 <= i < pos implies !is_svg_source(#[trigger] ws[i]) by {
        lemma_no_svg_source(rs, i);
    }
    lemma_first_svg_source(ws, pos);
}

/// The report of EMF -> SVG: it is an error exactly when the bytes do not
/// parse, and then the parse error; the source counts as recovered exactly
/// when lossless mode is on and the file embeds an SVG source, and then the
/// SVG is that source with no warnings; otherwise the warnings are the
/// renderer's and the SVG is its text (with the EMF embedded in lossless
/// mode).
pub proof fn lemma_report_fields<F: Fn(&EmfFile) -> (String, Vec<String>)>(
    data: Seq<u8>,
    opts: Emf2SvgOptions,
    render: F,
    r: Result<EmfToSvgResult, EmfError>,
)
    requires
        report_outcome(data, opts, render, r),
    ensures
        r is Err <==> spec_parse_file(data) is Err,
        r matches Err(e) ==> spec_parse_file(data) == Err::<EmfFileModel, EmfError>(e),
        r matches Ok(res) ==> spec_parse_file(data) matches Ok(file) && (res.recovered_embedded_source
            <==> opts.lossless && embedded_svg_source(file.records) is Some),
        r matches Ok(res) ==> (res.recovered_embedded_source ==> (res.warnings@.len() == 0
            && (spec_parse_file(data) matches Ok(file) && embedded_svg_source(file.records) == Some(
            res.svg@,
        )))),
        r matches Ok(res) ==> (!res.recovered_embedded_source ==> exists|
            f: EmfFile,
            out: (String, Vec<String>),
        |
            #[trigger] render.ensures((&f,), out) && res.warnings@ == out.1@ && res.svg@ == (
            if opts.lossless {
                spec_embed(out.0@, data)
            } else {
                out.0@
            })),
{
}

/// The report of SVG -> EMF: a text that embeds an original EMF gives those
/// bytes, with no warnings and the source recovered, in either mode and
/// whatever the converter would make of it; any other text is an error
/// exactly when the converter fails, and otherwise gives the converter's
/// warnings with the source not recovered.
pub proof fn lemma_svg_report_fields<E, F: Fn(&str) -> Result<(EmfHeader, Vec<EmfRecord>, Vec<String>), E>>(
    svg: &str,
    lossless: bool,
    convert: F,
    r: Result<SvgToEmfResult, E>,
)
    requires
        svg_report_outcome(svg, lossless, convert, r),
    ensures
        spec_extract(svg@) matches Some(b) ==> r matches Ok(res) && res.bytes@ == b
            && res.warnings@.len() == 0 && res.recovered_embedded_source,
        spec_extract(svg@) is None ==> exists|out: Result<(EmfHeader, Vec<EmfRecord>, Vec<String>), E>|
            #[trigger] convert.ensures((svg,), out) && (r is Err <==> out is Err) && (r matches Ok(res)
                ==> (!res.recovered_embedded_source && (out matches Ok((h, rs, w)) && res.warnings@
                == w@))),
{
    if spec_extract(svg@) is None {
        let out = choose|out: Result<(EmfHeader, Vec<EmfRecord>, Vec<String>), E>|
            #[trigger] convert.ensures((svg,), out) && emitted_result(out, svg.spec_bytes(), lossless, r);
        assert(convert.ensures((svg,), out));
    }
}

} // verus!
