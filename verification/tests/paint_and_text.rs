use vecmeta::emfplus::{
    apply_entry, decode, encode, push_element_entries, GradientFill, PlusEntry, PlusPaint, PlusStop,
    SolidPaint,
};
use vecmeta::style::Rgb;
use vecmeta::svg_syntax::{paint_ref_id, style_lookup, xml_comment_escape};
use vecmeta::text::{parse_font, parse_text_out, FontSpec};

#[test]
fn paint_table_roundtrip() {
    let entries = vec![
        PlusEntry {
            index: 0,
            paint: PlusPaint::Solid {
                r: 10,
                g: 20,
                b: 30,
                a: 128,
            },
        },
        PlusEntry {
            index: 3,
            paint: PlusPaint::Linear {
                x1: 1.0f32.to_bits(),
                y1: 2.0f32.to_bits(),
                x2: 3.5f32.to_bits(),
                y2: 4.0f32.to_bits(),
                stops: vec![
                    PlusStop {
                        offset: 0.0f32.to_bits(),
                        r: 6,
                        g: 182,
                        b: 212,
                        a: 255,
                    },
                    PlusStop {
                        offset: 1.0f32.to_bits(),
                        r: 15,
                        g: 118,
                        b: 110,
                        a: 200,
                    },
                ],
            },
        },
    ];
    let bytes = encode(&entries);
    let back = decode(&bytes).expect("decode");
    assert_eq!(entries, back);
}

#[test]
fn paint_table_layout() {
    let entries = vec![PlusEntry {
        index: 7,
        paint: PlusPaint::StrokeSolid { r: 1, g: 2, b: 3, a: 4 },
    }];
    let bytes = encode(&entries);
    // Identifier, header record (28), table record (12 + 16), EOF record (12).
    assert_eq!(bytes.len(), 4 + 28 + 28 + 12);
    assert_eq!(&bytes[0..4], &0x2B46_4D45u32.to_le_bytes());
    assert_eq!(&bytes[4..6], &0x4001u16.to_le_bytes());
    assert_eq!(&bytes[32..34], &0x40FFu16.to_le_bytes());
    // Table: count 1, index 7, kind 2, rgba.
    assert_eq!(&bytes[44..48], &1u32.to_le_bytes());
    assert_eq!(&bytes[48..52], &7u32.to_le_bytes());
    assert_eq!(&bytes[52..56], &2u32.to_le_bytes());
    assert_eq!(&bytes[56..60], &[1, 2, 3, 4]);
    assert_eq!(&bytes[60..62], &0x4002u16.to_le_bytes());
}

#[test]
fn paint_table_rejects_other_payloads() {
    assert_eq!(decode(&[]), None);
    assert_eq!(decode(&[1, 2, 3, 4, 5]), None);
    // Right identifier but no paint record.
    let mut only_eof = 0x2B46_4D45u32.to_le_bytes().to_vec();
    only_eof.extend_from_slice(&0x4002u16.to_le_bytes());
    only_eof.extend_from_slice(&0u16.to_le_bytes());
    only_eof.extend_from_slice(&12u32.to_le_bytes());
    only_eof.extend_from_slice(&0u32.to_le_bytes());
    assert_eq!(decode(&only_eof), None);
    // An unknown paint kind makes the table unreadable.
    let entries = vec![PlusEntry {
        index: 0,
        paint: PlusPaint::Solid { r: 0, g: 0, b: 0, a: 0 },
    }];
    let mut bytes = encode(&entries);
    bytes[52] = 9;
    assert_eq!(decode(&bytes), None);
}

#[test]
fn hex_colors() {
    assert_eq!(Rgb::new(255, 0, 127).to_hex(), "#ff007f");
    assert_eq!(Rgb::new(0, 10, 171).to_hex(), "#000aab");
}

#[test]
fn comment_text_is_escaped() {
    assert_eq!(xml_comment_escape("a--b"), "a- -b");
    assert_eq!(xml_comment_escape("---"), "- --");
    assert_eq!(xml_comment_escape("----"), "- -- -");
    assert_eq!(xml_comment_escape("no dashes - here"), "no dashes - here");
}

#[test]
fn style_attribute_lookup() {
    let style = "fill: #ff0000 ; stroke:blue;opacity : 0.5";
    assert_eq!(style_lookup(style, "fill"), Some("#ff0000".to_string()));
    assert_eq!(style_lookup(style, "stroke"), Some("blue".to_string()));
    assert_eq!(style_lookup(style, "opacity"), Some("0.5".to_string()));
    assert_eq!(style_lookup(style, "stroke-width"), None);
    // A matching declaration without a value ends the search.
    assert_eq!(style_lookup("fill;fill:red", "fill"), None);
    assert_eq!(style_lookup("", "fill"), None);
}

#[test]
fn paint_references() {
    assert_eq!(paint_ref_id("url(#grad1)"), Some("grad1".to_string()));
    assert_eq!(paint_ref_id("  url('#g2') none"), Some("g2".to_string()));
    assert_eq!(paint_ref_id("url(\"#g3\")"), Some("g3".to_string()));
    assert_eq!(paint_ref_id("url(plain)"), Some("plain".to_string()));
    assert_eq!(paint_ref_id("#ff0000"), None);
}

fn font_payload(ih: u32, height: i32, weight: i32, italic: u8, face: &str) -> Vec<u8> {
    let mut p = ih.to_le_bytes().to_vec();
    let mut lf = vec![0u8; 92];
    lf[0..4].copy_from_slice(&height.to_le_bytes());
    lf[16..20].copy_from_slice(&weight.to_le_bytes());
    lf[20] = italic;
    for (i, u) in face.encode_utf16().enumerate() {
        lf[28 + 2 * i..30 + 2 * i].copy_from_slice(&u.to_le_bytes());
    }
    p.extend_from_slice(&lf);
    p
}

#[test]
fn fonts_are_parsed() {
    let (ih, f) = parse_font(&font_payload(5, -24, 700, 1, "Arial")).unwrap();
    assert_eq!(ih, 5);
    assert_eq!(
        f,
        FontSpec {
            size: 24,
            weight: 700,
            italic: true,
            family: "Arial".to_string()
        }
    );
    let (_, g) = parse_font(&font_payload(1, 0, 5000, 0, "")).unwrap();
    assert_eq!(g.size, 16);
    assert_eq!(g.weight, 1000);
    assert!(!g.italic);
    assert_eq!(g.family, "sans-serif");
    assert_eq!(FontSpec::default().family, "sans-serif");
    assert_eq!(parse_font(&[1, 2, 3]), None);
}

#[test]
fn surrogates_in_face_names_become_question_marks() {
    let mut p = font_payload(1, 10, 400, 0, "");
    // A lone high surrogate, then 'x'.
    p[4 + 28..4 + 30].copy_from_slice(&0xD800u16.to_le_bytes());
    p[4 + 30..4 + 32].copy_from_slice(&0x78u16.to_le_bytes());
    let (_, f) = parse_font(&p).unwrap();
    assert_eq!(f.family, "?x");
}

fn text_payload(x: i32, y: i32, text: &[u8], n_chars: u32) -> Vec<u8> {
    let mut p = vec![0u8; 76];
    p[28..32].copy_from_slice(&x.to_le_bytes());
    p[32..36].copy_from_slice(&y.to_le_bytes());
    p[36..40].copy_from_slice(&n_chars.to_le_bytes());
    // String right after the 76-byte fixed part, offset counted from the record start.
    p[40..44].copy_from_slice(&(76u32 + 8).to_le_bytes());
    p.extend_from_slice(text);
    p
}

#[test]
fn text_out_records_are_parsed() {
    let wide: Vec<u8> = "Hé".encode_utf16().flat_map(|u| u.to_le_bytes()).collect();
    let t = parse_text_out(&text_payload(10, -20, &wide, 2), true).unwrap();
    assert_eq!((t.x, t.y, t.text.as_str()), (10, -20, "Hé"));
    let t = parse_text_out(&text_payload(1, 2, &[0x41, 0xE9], 2), false).unwrap();
    assert_eq!(t.text, "Aé");
    // Too few characters present.
    assert!(parse_text_out(&text_payload(1, 2, &[0x41], 2), false).is_none());
    assert!(parse_text_out(&text_payload(1, 2, &[0x41, 0], 2), true).is_none());
    // An offset inside the 8-byte record header.
    let mut p = text_payload(1, 2, b"A", 1);
    p[40..44].copy_from_slice(&4u32.to_le_bytes());
    assert!(parse_text_out(&p, false).is_none());
}

#[test]
fn element_paint_entries() {
    let red = Rgb::new(255, 0, 0);
    let blue = Rgb::new(0, 0, 255);
    let mut table = Vec::new();
    // Opaque fill and stroke: nothing to record.
    push_element_entries(&mut table, 0, Some((red, 255)), None, Some((blue, 255)));
    assert!(table.is_empty());
    // Translucent fill and stroke.
    push_element_entries(&mut table, 1, Some((red, 128)), None, Some((blue, 64)));
    assert_eq!(
        table,
        vec![
            PlusEntry { index: 1, paint: PlusPaint::Solid { r: 255, g: 0, b: 0, a: 128 } },
            PlusEntry { index: 1, paint: PlusPaint::StrokeSolid { r: 0, g: 0, b: 255, a: 64 } },
        ]
    );
    // A gradient fill: stop alphas are combined with the fill's alpha.
    let stop = |offset: f32, a: u8| PlusStop { offset: offset.to_bits(), r: 1, g: 2, b: 3, a };
    let gradient = GradientFill {
        x1: 0.0f32.to_bits(),
        y1: 0.0f32.to_bits(),
        x2: 10.0f32.to_bits(),
        y2: 0.0f32.to_bits(),
        stops: vec![stop(0.0, 255), stop(1.0, 100)],
    };
    let mut table = Vec::new();
    push_element_entries(&mut table, 2, Some((red, 51)), Some(gradient), None);
    assert_eq!(
        table,
        vec![PlusEntry {
            index: 2,
            paint: PlusPaint::Linear {
                x1: 0.0f32.to_bits(),
                y1: 0.0f32.to_bits(),
                x2: 10.0f32.to_bits(),
                y2: 0.0f32.to_bits(),
                stops: vec![stop(0.0, 51), stop(1.0, 20)],
            },
        }]
    );
    // Without a fill, a gradient is not recorded.
    let mut table = Vec::new();
    let gradient = GradientFill { x1: 0, y1: 0, x2: 0, y2: 0, stops: vec![] };
    push_element_entries(&mut table, 3, None, Some(gradient), None);
    assert!(table.is_empty());
}

#[test]
fn paint_entries_read_back() {
    let red = Rgb::new(255, 0, 0);
    let blue = Rgb::new(0, 0, 255);
    let mut table = Vec::new();
    push_element_entries(&mut table, 0, Some((red, 102)), None, Some((blue, 30)));
    let bytes = encode(&table);
    let entries = decode(&bytes).expect("decode");
    let mut paint = SolidPaint { fill: Some((red, 255)), stroke: Some((blue, 255)) };
    for e in &entries {
        apply_entry(&mut paint, &e.paint);
    }
    assert_eq!(paint, SolidPaint { fill: Some((red, 102)), stroke: Some((blue, 30)) });

    // An element without a stroke keeps none.
    let mut paint = SolidPaint { fill: Some((red, 255)), stroke: None };
    for e in &entries {
        apply_entry(&mut paint, &e.paint);
    }
    assert_eq!(paint, SolidPaint { fill: Some((red, 102)), stroke: None });
}
