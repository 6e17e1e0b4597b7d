use vecmeta::css_cascade::{cascade_value, CssDecl};
use vecmeta::style::{Anchor, FillRule, LineCap, LineJoin, Rgb};
use vecmeta::svg_props::{
    anchor_of, average_color, collapse_white_space, fill_rule_of, font_family_of, font_weight_of,
    href_id, is_italic, line_cap_of, line_join_of, paint_source, parse_paint, tag_kind,
    PaintSource, TagKind,
};

#[test]
fn keyword_properties() {
    assert_eq!(line_cap_of(" round "), LineCap::Round);
    assert_eq!(line_cap_of("square"), LineCap::Square);
    assert_eq!(line_cap_of("butt"), LineCap::Flat);
    assert_eq!(line_cap_of("Round"), LineCap::Flat);
    assert_eq!(line_join_of("round"), LineJoin::Round);
    assert_eq!(line_join_of("\tbevel"), LineJoin::Bevel);
    assert_eq!(line_join_of("miter-clip"), LineJoin::Miter);
    assert_eq!(fill_rule_of(" evenodd"), FillRule::EvenOdd);
    assert_eq!(fill_rule_of("nonzero"), FillRule::NonZero);
    assert_eq!(anchor_of("middle"), Anchor::Middle);
    assert_eq!(anchor_of("end "), Anchor::End);
    assert_eq!(anchor_of("start"), Anchor::Start);
    assert!(is_italic("italic"));
    assert!(is_italic(" oblique "));
    assert!(!is_italic("normal"));
}

#[test]
fn font_families_and_weights() {
    assert_eq!(font_family_of("'Noto Sans', Arial, sans-serif"), Some("Noto Sans".to_string()));
    assert_eq!(font_family_of("  \" Courier New \" "), Some("Courier New".to_string()));
    assert_eq!(font_family_of("serif"), Some("serif".to_string()));
    assert_eq!(font_family_of(" '' , Arial"), None);
    assert_eq!(font_family_of(""), None);
    assert_eq!(font_weight_of("normal"), 400);
    assert_eq!(font_weight_of(" bold "), 700);
    assert_eq!(font_weight_of("bolder"), 700);
    assert_eq!(font_weight_of("lighter"), 300);
    assert_eq!(font_weight_of("600"), 600);
    assert_eq!(font_weight_of("+900"), 900);
    assert_eq!(font_weight_of("70000"), 400);
    assert_eq!(font_weight_of("-100"), 400);
    assert_eq!(font_weight_of("heavy"), 400);
}

#[test]
fn text_content_white_space() {
    assert_eq!(collapse_white_space("  Hello \n\t  world  "), "Hello world");
    assert_eq!(collapse_white_space("a\u{3000}\u{3000}b"), "a b");
    assert_eq!(collapse_white_space(" \n "), "");
    assert_eq!(collapse_white_space("x"), "x");
}

#[test]
fn paint_values() {
    let servers = vec![("g1".to_string(), Rgb::new(10, 20, 30))];
    assert_eq!(paint_source(" none ", &servers), PaintSource::NoPaint);
    assert_eq!(paint_source("NoNe", &servers), PaintSource::NoPaint);
    assert_eq!(paint_source("", &servers), PaintSource::NoPaint);
    assert_eq!(paint_source("url(#g1)", &servers), PaintSource::Server(Rgb::new(10, 20, 30)));
    assert_eq!(paint_source("url(#other) #00ff00", &servers), PaintSource::Text("#00ff00".to_string()));
    assert_eq!(paint_source("url(#other)", &servers), PaintSource::Text(String::new()));
    assert_eq!(paint_source(" red ", &servers), PaintSource::Text("red".to_string()));

    assert_eq!(parse_paint("none", &servers), None);
    assert_eq!(parse_paint("red", &servers), Some(Rgb::new(255, 0, 0)));
    assert_eq!(parse_paint(" #0000ff", &servers), Some(Rgb::new(0, 0, 255)));
    assert_eq!(parse_paint("rgb(1, 2, 3)", &servers), Some(Rgb::new(1, 2, 3)));
    assert_eq!(parse_paint("url('#g1')", &servers), Some(Rgb::new(10, 20, 30)));
    assert_eq!(parse_paint("url(#missing) #ff8000", &servers), Some(Rgb::new(255, 128, 0)));
    assert_eq!(parse_paint("url(#missing)", &servers), None);
    assert_eq!(parse_paint("not-a-color", &servers), None);
}

#[test]
fn element_kinds() {
    assert_eq!(tag_kind("g"), TagKind::Group);
    assert_eq!(tag_kind("svg"), TagKind::Group);
    assert_eq!(tag_kind("a"), TagKind::Group);
    assert_eq!(tag_kind("clipPath"), TagKind::Definition);
    assert_eq!(tag_kind("radialGradient"), TagKind::Definition);
    assert_eq!(tag_kind("style"), TagKind::Definition);
    assert_eq!(tag_kind("use"), TagKind::Use);
    assert_eq!(tag_kind("text"), TagKind::Text);
    assert_eq!(tag_kind("image"), TagKind::NonVector);
    assert_eq!(tag_kind("tspan"), TagKind::NonVector);
    assert_eq!(tag_kind("path"), TagKind::Path);
    assert_eq!(tag_kind("polyline"), TagKind::Polyline);
    assert_eq!(tag_kind("ellipse"), TagKind::Ellipse);
    assert_eq!(tag_kind("switch"), TagKind::Other);
    assert_eq!(tag_kind("Rect"), TagKind::Other);
}

#[test]
fn same_document_references() {
    assert_eq!(href_id("#box"), Some("box".to_string()));
    assert_eq!(href_id("  #a b "), Some("a b".to_string()));
    assert_eq!(href_id("#"), Some(String::new()));
    assert_eq!(href_id("other.svg#box"), None);
    assert_eq!(href_id(""), None);
}

#[test]
fn gradient_average_colors() {
    assert_eq!(average_color(&[]), None);
    assert_eq!(average_color(&[Rgb::new(10, 20, 30)]), Some(Rgb::new(10, 20, 30)));
    assert_eq!(
        average_color(&[Rgb::new(255, 0, 0), Rgb::new(0, 0, 255)]),
        Some(Rgb::new(127, 0, 127))
    );
    assert_eq!(
        average_color(&[Rgb::new(1, 2, 3), Rgb::new(2, 3, 4), Rgb::new(4, 5, 6)]),
        Some(Rgb::new(2, 3, 4))
    );
}

fn decl(name: &str, value: &str, important: bool, spec: (u8, u8, u8), order: usize) -> CssDecl {
    CssDecl {
        name: name.to_string(),
        value: value.to_string(),
        important,
        ids: spec.0,
        classes: spec.1,
        types: spec.2,
        order,
    }
}

#[test]
fn css_cascade_order() {
    let ds = vec![
        decl("fill", " red ", false, (0, 1, 0), 0),
        decl("stroke", "blue", false, (0, 0, 1), 1),
        decl("fill", "green", false, (0, 0, 1), 1),
        decl("stroke", "black", false, (0, 0, 1), 2),
    ];
    // The class selector outranks the later type selector.
    assert_eq!(cascade_value(&ds, "fill"), Some("red".to_string()));
    // Equal specificity: the later rule wins.
    assert_eq!(cascade_value(&ds, "stroke"), Some("black".to_string()));
    assert_eq!(cascade_value(&ds, "opacity"), None);

    let ds = vec![
        decl("fill", "yellow", true, (0, 0, 1), 0),
        decl("fill", "red", false, (1, 0, 0), 1),
        decl("stroke", "a", false, (0, 0, 1), 0),
        decl("stroke", "b", false, (0, 0, 1), 0),
    ];
    // !important beats any specificity.
    assert_eq!(cascade_value(&ds, "fill"), Some("yellow".to_string()));
    // Within one rule the later declaration wins.
    assert_eq!(cascade_value(&ds, "stroke"), Some("b".to_string()));
}
