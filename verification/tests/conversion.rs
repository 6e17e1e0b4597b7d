use vecmeta::convert::{
    emf_to_svg, emf_to_svg_with, emf_to_svg_with_report, svg_to_emf, svg_to_emf_with_report,
    Emf2SvgOptions,
};
use vecmeta::error::EmfError;
use vecmeta::reader::EmfFile;
use vecmeta::records::{EmfHeader, EmfRecord};
use vecmeta::source_embed::{embed_emf_source, extract_embedded_emf};
use vecmeta::types::{PointL, OMNI_KIND_SVG};
use vecmeta::writer::write_emf;

/// A stand-in for SVG parsing and record emission: a default header and a
/// stream with one line and the trailing EOF.
fn emit(_svg: &str) -> Result<(EmfHeader, Vec<EmfRecord>, Vec<String>), String> {
    Ok((
        EmfHeader::default(),
        vec![EmfRecord::LineTo(PointL::new(3, 4)), EmfRecord::Eof],
        vec!["note".to_string()],
    ))
}

/// A stand-in for record playback: an SVG naming the record count.
fn render(file: &EmfFile) -> (String, Vec<String>) {
    (
        format!("<svg width=\"1\"><desc>{}</desc></svg>", file.records.len()),
        vec!["skipped".to_string()],
    )
}

#[test]
fn byte_lossless_svg_emf_svg() {
    let samples = [
        r##"<svg xmlns="http://www.w3.org/2000/svg" viewBox="0 0 96 96"><circle cx="48" cy="48" r="40" fill="#06b6d4"/></svg>"##,
        r##"<svg width="100" height="100"><rect x="10" y="10" width="80" height="60" rx="5" fill="url(#g)" opacity="0.5"/><text x="5" y="20">hello</text></svg>"##,
    ];
    for (i, svg) in samples.iter().enumerate() {
        let emf = svg_to_emf(svg, true, emit).unwrap_or_else(|e| panic!("sample {i}: to emf: {e}"));
        let back = emf_to_svg_with(&emf, Emf2SvgOptions { lossless: true }, render)
            .unwrap_or_else(|e| panic!("sample {i}: back to svg: {e:?}"));
        assert_eq!(
            *svg, back,
            "sample {i}: byte-lossless SVG->EMF->SVG is not identical"
        );
    }
}

#[test]
fn lossless_svg_source_sits_before_eof() {
    let svg = "<svg/>";
    let res = svg_to_emf_with_report(svg, true, emit).unwrap();
    assert!(!res.recovered_embedded_source);
    assert_eq!(res.warnings, vec!["note".to_string()]);
    let file = EmfFile::parse(&res.bytes).unwrap();
    assert_eq!(file.records.len(), 3);
    assert_eq!(file.records[0], EmfRecord::LineTo(PointL::new(3, 4)));
    assert_eq!(
        file.records[1],
        EmfRecord::omni_comment(OMNI_KIND_SVG, svg.as_bytes())
    );
    assert_eq!(file.records[2], EmfRecord::Eof);
    // Without lossless mode the records are written as emitted.
    let plain = svg_to_emf(svg, false, emit).unwrap();
    assert_eq!(EmfFile::parse(&plain).unwrap().records.len(), 2);
}

#[test]
fn converter_errors_are_passed_on() {
    let failing = |_: &str| -> Result<(EmfHeader, Vec<EmfRecord>, Vec<String>), String> {
        Err("bad svg".to_string())
    };
    assert_eq!(svg_to_emf("<svg/>", true, failing), Err("bad svg".to_string()));
}

#[test]
fn byte_lossless_emf_svg_emf() {
    let header = EmfHeader::default();
    let data = write_emf(
        &header,
        &[EmfRecord::LineTo(PointL::new(1, 2)), EmfRecord::Eof],
    );
    let res = emf_to_svg_with_report(&data, Emf2SvgOptions { lossless: true }, render).unwrap();
    assert!(!res.recovered_embedded_source);
    assert_eq!(res.warnings, vec!["skipped".to_string()]);
    assert!(res.svg.starts_with("<svg width=\"1\">\n  <metadata id=\"omnidoc-emf-source\" encoding=\"base64\">"));
    assert!(res.svg.ends_with("</metadata><desc>2</desc></svg>"));
    let back = svg_to_emf(&res.svg, false, emit).unwrap();
    assert_eq!(back, data);
    let report = svg_to_emf_with_report(&res.svg, false, emit).unwrap();
    assert!(report.recovered_embedded_source);
    assert!(report.warnings.is_empty());
}

#[test]
fn plain_emf_to_svg_renders() {
    let data = write_emf(&EmfHeader::default(), &[EmfRecord::Eof]);
    assert_eq!(
        emf_to_svg(&data, render).unwrap(),
        "<svg width=\"1\"><desc>1</desc></svg>"
    );
    assert_eq!(
        emf_to_svg_with(&data, Emf2SvgOptions::default(), render).unwrap(),
        "<svg width=\"1\"><desc>1</desc></svg>"
    );
    assert_eq!(
        emf_to_svg(&[1, 2, 3], render),
        Err(EmfError::Truncated("file smaller than EMF header"))
    );
}

#[test]
fn invalid_utf8_sources_are_skipped() {
    let data = write_emf(
        &EmfHeader::default(),
        &[
            EmfRecord::omni_comment(OMNI_KIND_SVG, &[0xff, 0xfe]),
            EmfRecord::omni_comment(OMNI_KIND_SVG, b"<svg>ok</svg>"),
            EmfRecord::Eof,
        ],
    );
    let res = emf_to_svg_with_report(&data, Emf2SvgOptions { lossless: true }, render).unwrap();
    assert!(res.recovered_embedded_source);
    assert_eq!(res.svg, "<svg>ok</svg>");
    // Only lossless mode looks for the source.
    let res = emf_to_svg_with_report(&data, Emf2SvgOptions { lossless: false }, render).unwrap();
    assert!(!res.recovered_embedded_source);
    assert_eq!(res.svg, "<svg width=\"1\"><desc>3</desc></svg>");
}

#[test]
fn embedding_and_extraction() {
    let svg = "<?xml version=\"1.0\"?>\n<svg a=\"b\"><g/></svg>";
    let out = embed_emf_source(svg, &[1, 2, 3]);
    assert_eq!(
        out,
        "<?xml version=\"1.0\"?>\n<svg a=\"b\">\n  <metadata id=\"omnidoc-emf-source\" encoding=\"base64\">AQID</metadata><g/></svg>"
    );
    assert_eq!(extract_embedded_emf(&out), Some(vec![1, 2, 3]));
    // White space inside the metadata text is ignored.
    let spaced = "<metadata id=\"omnidoc-emf-source\">\n  AQ\tID \n</metadata>";
    assert_eq!(extract_embedded_emf(spaced), Some(vec![1, 2, 3]));
    // No tag: nothing is embedded.
    assert_eq!(embed_emf_source("plain text", &[1]), "plain text");
    // Missing closing tag, or text that is not base64.
    assert_eq!(extract_embedded_emf("<metadata id=\"omnidoc-emf-source\">AQID"), None);
    assert_eq!(
        extract_embedded_emf("<metadata id=\"omnidoc-emf-source\">!!</metadata>"),
        None
    );
    assert_eq!(extract_embedded_emf("<svg/>"), None);
}
