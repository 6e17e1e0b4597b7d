use vecmeta::css_cascade::{property_value, CssDecl};
use vecmeta::xml_doc::{children, element_by_id, svg_document, SvgError, XmlNode};

const DOC: &str = "<?xml version=\"1.0\"?>\n<!-- drawing -->\n<svg xmlns=\"http://www.w3.org/2000/svg\" \
xmlns:xlink=\"http://www.w3.org/1999/xlink\" width=\"10\"><g id=\"a\" fill=\"red\"><rect id=\"r\"/>\
text<use xlink:href=\"#r\"/></g><circle id=\"a\"/></svg>";

fn parsed() -> Vec<XmlNode> {
    match svg_document(DOC) {
        Ok(v) => v,
        Err(_) => panic!("document should parse"),
    }
}

fn tag_of(doc: &[XmlNode], i: usize) -> &str {
    doc[i].tag.as_str()
}

#[test]
fn document_lists_nodes_in_order() {
    let doc = parsed();
    // The document node comes first, then the comment, then the root element.
    assert!(!doc[0].is_element && !doc[0].is_text);
    assert_eq!(doc[1].text.as_deref(), Some(" drawing "));
    assert!(!doc[1].is_element);
    assert!(doc[2].is_element);
    assert_eq!(tag_of(&doc, 2), "svg");
    assert_eq!(doc[2].parent, 0);
    assert_eq!(doc[2].attribute("width").as_deref(), Some("10"));
    assert_eq!(doc[2].attribute("height"), None);
}

#[test]
fn children_in_document_order() {
    let doc = parsed();
    let top = children(&doc, 2);
    let tags: Vec<&str> = top.iter().map(|&i| tag_of(&doc, i)).collect();
    assert_eq!(tags, vec!["g", "circle"]);
    let inner = children(&doc, top[0]);
    assert_eq!(inner.len(), 3);
    assert_eq!(tag_of(&doc, inner[0]), "rect");
    assert!(doc[inner[1]].is_text);
    assert_eq!(doc[inner[1]].text.as_deref(), Some("text"));
    assert_eq!(tag_of(&doc, inner[2]), "use");
    let root_children = children(&doc, 0);
    assert_eq!(root_children, vec![1, 2]);
}

#[test]
fn namespaced_attribute_and_id_lookup() {
    let doc = parsed();
    let g = children(&doc, 2)[0];
    let use_el = children(&doc, g)[2];
    assert_eq!(doc[use_el].attribute("href"), None);
    assert_eq!(
        doc[use_el].attribute_ns(Some("http://www.w3.org/1999/xlink"), "href").as_deref(),
        Some("#r")
    );
    // The first element with the id wins.
    assert_eq!(element_by_id(&doc, "a"), Some(g));
    let r = element_by_id(&doc, "r").unwrap();
    assert_eq!(tag_of(&doc, r), "rect");
    assert_eq!(element_by_id(&doc, "missing"), None);
}

#[test]
fn malformed_xml_is_an_xml_error() {
    match svg_document("<svg><g></svg>") {
        Err(SvgError::Xml(m)) => assert!(!m.is_empty()),
        _ => panic!("expected an XML error"),
    }
    assert!(matches!(svg_document(""), Err(SvgError::Xml(_))));
}

#[test]
fn other_root_element_is_no_root() {
    assert!(matches!(svg_document("<html><svg/></html>"), Err(SvgError::NoRoot)));
    assert!(matches!(svg_document("<svg:svg xmlns:svg=\"http://www.w3.org/2000/svg\"/>"), Ok(_)));
}

fn decl(name: &str, value: &str) -> CssDecl {
    CssDecl {
        name: name.to_string(),
        value: value.to_string(),
        important: false,
        ids: 0,
        classes: 1,
        types: 0,
        order: 0,
    }
}

#[test]
fn inline_style_over_attribute_over_css() {
    let doc = match svg_document("<svg><rect style=\"fill: blue; stroke:red\" fill=\"green\" opacity=\"0.5\"/></svg>") {
        Ok(v) => v,
        Err(_) => panic!("document should parse"),
    };
    let rect = &doc[2];
    let css = vec![decl("fill", "yellow"), decl("opacity", "1"), decl("stroke-width", " 3 ")];
    assert_eq!(property_value(rect, &css, "fill").as_deref(), Some("blue"));
    assert_eq!(property_value(rect, &css, "stroke").as_deref(), Some("red"));
    assert_eq!(property_value(rect, &css, "opacity").as_deref(), Some("0.5"));
    assert_eq!(property_value(rect, &css, "stroke-width").as_deref(), Some("3"));
    assert_eq!(property_value(rect, &css, "font-size"), None);
}
