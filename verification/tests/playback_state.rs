use vecmeta::skipped::{push_decimal, SkippedTypes};
use vecmeta::dc_state::{apply_state, polyfill_mode, restore_saved, DcState, GdiObject, ObjectTable};
use vecmeta::emit_objects::GdiObjects;
use vecmeta::gdi::cosmetic_pen;
use vecmeta::records::EmfRecord;
use vecmeta::style::{FillRule, LineCap, LineJoin, Rgb};
use vecmeta::text::FontSpec;
use vecmeta::types::{
    ColorRef, PointL, SizeL, ALTERNATE, AD_CLOCKWISE, BS_NULL, BS_SOLID, MM_ANISOTROPIC, MM_TEXT,
    NULL_BRUSH, NULL_PEN, PS_DASH, PS_ENDCAP_FLAT, PS_GEOMETRIC, PS_JOIN_MITER, PS_USERSTYLE,
    STOCK_OBJECT_FLAG, WHITE_PEN, WINDING,
};

#[test]
fn initial_state_is_gdis() {
    let dc = DcState::new();
    assert_eq!(dc.map_mode, MM_TEXT);
    assert_eq!(dc.window_ext, SizeL::new(1, 1));
    assert_eq!(dc.viewport_org, PointL::new(0, 0));
    assert_eq!(dc.pen, Some(cosmetic_pen(Rgb::new(0, 0, 0))));
    assert_eq!(dc.brush, Some(Rgb::new(255, 255, 255)));
    assert_eq!(dc.fill_rule, FillRule::EvenOdd);
    assert!(!dc.clockwise);
    assert_eq!(dc.font, FontSpec::default());
    assert_eq!(dc.text_color, Rgb::new(0, 0, 0));
}

#[test]
fn state_records_update_the_dc() {
    let mut dc = DcState::new();
    let mut objects = ObjectTable::new();
    assert!(apply_state(&mut dc, &mut objects, &EmfRecord::SetMapMode(MM_ANISOTROPIC)));
    assert!(apply_state(&mut dc, &mut objects, &EmfRecord::SetWindowExtEx(SizeL::new(100, 200))));
    assert!(apply_state(&mut dc, &mut objects, &EmfRecord::SetViewportOrgEx(PointL::new(-5, 6))));
    assert!(apply_state(&mut dc, &mut objects, &EmfRecord::SetPolyfillMode(WINDING)));
    assert!(apply_state(&mut dc, &mut objects, &EmfRecord::SetArcDirection(AD_CLOCKWISE)));
    assert_eq!(dc.map_mode, MM_ANISOTROPIC);
    assert_eq!(dc.window_ext, SizeL::new(100, 200));
    assert_eq!(dc.viewport_org, PointL::new(-5, 6));
    assert_eq!(dc.fill_rule, FillRule::NonZero);
    assert!(dc.clockwise);
    assert!(apply_state(&mut dc, &mut objects, &EmfRecord::SetPolyfillMode(ALTERNATE)));
    assert_eq!(dc.fill_rule, FillRule::EvenOdd);
    // Geometry records are not state records.
    assert!(!apply_state(&mut dc, &mut objects, &EmfRecord::MoveToEx(PointL::new(1, 2))));
    assert!(!apply_state(&mut dc, &mut objects, &EmfRecord::SaveDc));
}

#[test]
fn objects_are_created_selected_and_deleted() {
    let mut dc = DcState::new();
    let mut objects = ObjectTable::new();
    let brush = EmfRecord::CreateBrushIndirect { ih: 3, style: BS_SOLID, color: ColorRef::new(1, 2, 3), hatch: 0 };
    assert!(apply_state(&mut dc, &mut objects, &brush));
    assert_eq!(objects.get(3), Some(&GdiObject::Brush(Some(Rgb::new(1, 2, 3)))));
    assert!(apply_state(&mut dc, &mut objects, &EmfRecord::SelectObject(3)));
    assert_eq!(dc.brush, Some(Rgb::new(1, 2, 3)));

    let pen = EmfRecord::ExtCreatePen {
        ih: 4,
        style: PS_GEOMETRIC | PS_USERSTYLE | PS_ENDCAP_FLAT | PS_JOIN_MITER,
        width: 5,
        brush_style: BS_SOLID,
        color: ColorRef::new(9, 8, 7),
        hatch: 0,
        style_entries: vec![4, 2],
    };
    assert!(apply_state(&mut dc, &mut objects, &pen));
    assert!(apply_state(&mut dc, &mut objects, &EmfRecord::SelectObject(4)));
    let selected = dc.pen.clone().unwrap();
    assert_eq!(selected.color, Rgb::new(9, 8, 7));
    assert_eq!(selected.width, 5);
    assert!(!selected.cosmetic);
    assert_eq!(selected.dash, Some(vec![4, 2]));
    assert_eq!(selected.cap, LineCap::Flat);
    assert_eq!(selected.join, LineJoin::Miter);

    // A plain dashed pen of width 0 is cosmetic with width 1.
    let plain = EmfRecord::CreatePen { ih: 5, style: PS_DASH, width: 0, color: ColorRef::new(0, 0, 0) };
    assert!(apply_state(&mut dc, &mut objects, &plain));
    match objects.get(5) {
        Some(GdiObject::Pen(Some(p))) => {
            assert!(p.cosmetic);
            assert_eq!(p.width, 1);
            assert_eq!(p.dash, Some(vec![3, 3]));
        }
        other => panic!("unexpected object {other:?}"),
    }

    // Deleting leaves the selection; selecting an unknown handle changes nothing.
    assert!(apply_state(&mut dc, &mut objects, &EmfRecord::DeleteObject(3)));
    assert_eq!(objects.get(3), None);
    assert_eq!(dc.brush, Some(Rgb::new(1, 2, 3)));
    assert!(apply_state(&mut dc, &mut objects, &EmfRecord::SelectObject(3)));
    assert_eq!(dc.brush, Some(Rgb::new(1, 2, 3)));

    // A null brush object, and the stock objects.
    let null_brush = EmfRecord::CreateBrushIndirect { ih: 6, style: BS_NULL, color: ColorRef::new(1, 1, 1), hatch: 0 };
    assert!(apply_state(&mut dc, &mut objects, &null_brush));
    assert!(apply_state(&mut dc, &mut objects, &EmfRecord::SelectObject(6)));
    assert_eq!(dc.brush, None);
    assert!(apply_state(&mut dc, &mut objects, &EmfRecord::SelectObject(STOCK_OBJECT_FLAG | WHITE_PEN)));
    assert_eq!(dc.pen, Some(cosmetic_pen(Rgb::new(255, 255, 255))));
    assert!(apply_state(&mut dc, &mut objects, &EmfRecord::SelectObject(STOCK_OBJECT_FLAG | NULL_PEN)));
    assert_eq!(dc.pen, None);
    assert!(apply_state(&mut dc, &mut objects, &EmfRecord::SelectObject(STOCK_OBJECT_FLAG | NULL_BRUSH)));
    assert_eq!(dc.brush, None);
}

#[test]
fn fonts_are_selected_from_the_table() {
    let mut dc = DcState::new();
    let mut objects = ObjectTable::new();
    let font = FontSpec { size: 30, weight: 700, italic: true, family: "Serif".to_string() };
    objects.insert(9, GdiObject::Font(font.clone()));
    assert!(apply_state(&mut dc, &mut objects, &EmfRecord::SelectObject(9)));
    assert_eq!(dc.font, font);
}

#[test]
fn restoring_returns_to_saved_states() {
    // Save twice, restore -1: back to the second saved state.
    let mut stack = vec![10u32, 20];
    let mut cur = 30u32;
    restore_saved(&mut stack, &mut cur, -1);
    assert_eq!((stack.clone(), cur), (vec![10], 20));
    // Restore -2 from three saved states: back to the second one.
    let mut stack = vec![1u32, 2, 3];
    let mut cur = 4u32;
    restore_saved(&mut stack, &mut cur, -2);
    assert_eq!((stack.clone(), cur), (vec![1], 2));
    // Deeper than the stack: everything is popped, the oldest state wins.
    let mut stack = vec![1u32, 2];
    let mut cur = 4u32;
    restore_saved(&mut stack, &mut cur, -5);
    assert_eq!((stack.clone(), cur), (vec![], 1));
    // Non-negative indices pop nothing.
    let mut stack = vec![1u32];
    let mut cur = 4u32;
    restore_saved(&mut stack, &mut cur, 2);
    assert_eq!((stack, cur), (vec![1], 4));
}

#[test]
fn emitted_selections_play_back() {
    let pen_def = |w: u32, c: ColorRef| EmfRecord::ExtCreatePen {
        ih: 0,
        style: PS_GEOMETRIC | PS_ENDCAP_FLAT | PS_JOIN_MITER,
        width: w,
        brush_style: BS_SOLID,
        color: c,
        hatch: 0,
        style_entries: vec![],
    };
    let mut objects = GdiObjects::new();
    let mut records = Vec::new();
    objects.select_pen(&mut records, Some(pen_def(3, ColorRef::new(1, 2, 3))));
    objects.select_brush(&mut records, Some(ColorRef::new(4, 5, 6)));
    objects.select_pen(&mut records, Some(pen_def(7, ColorRef::new(0, 0, 0))));
    objects.select_pen(&mut records, Some(pen_def(3, ColorRef::new(1, 2, 3))));

    let mut dc = DcState::new();
    let mut table = ObjectTable::new();
    for r in &records {
        assert!(apply_state(&mut dc, &mut table, r));
    }
    let pen = dc.pen.clone().unwrap();
    assert_eq!(pen.color, Rgb::new(1, 2, 3));
    assert_eq!(pen.width, 3);
    assert!(!pen.cosmetic);
    assert_eq!(dc.brush, Some(Rgb::new(4, 5, 6)));

    objects.select_pen(&mut records, None);
    objects.select_brush(&mut records, None);
    for r in &records[records.len() - 2..] {
        assert!(apply_state(&mut dc, &mut table, r));
    }
    assert_eq!(dc.pen, None);
    assert_eq!(dc.brush, None);
}

#[test]
fn fill_rules_read_back() {
    use_fill_rule(FillRule::EvenOdd, ALTERNATE);
    use_fill_rule(FillRule::NonZero, WINDING);
}

fn use_fill_rule(rule: FillRule, mode: u32) {
    assert_eq!(polyfill_mode(rule), mode);
    let mut dc = DcState::new();
    let mut objects = ObjectTable::new();
    dc.fill_rule = if rule == FillRule::EvenOdd { FillRule::NonZero } else { FillRule::EvenOdd };
    assert!(apply_state(&mut dc, &mut objects, &EmfRecord::SetPolyfillMode(polyfill_mode(rule))));
    assert_eq!(dc.fill_rule, rule);
}

#[test]
fn skipped_types_warning_lists_distinct_types_in_order() {
    let mut s = SkippedTypes::new();
    assert_eq!(s.warning(), None);
    for t in [81u32, 76, 81, 114, 4294967295, 0] {
        s.insert(t);
    }
    assert_eq!(s.len(), 5);
    assert_eq!(
        s.warning().as_deref(),
        Some("skipped 5 non-vector record type(s) (iType: 0, 76, 81, 114, 4294967295)")
    );
    let mut one = SkippedTypes::new();
    one.insert(81);
    assert_eq!(one.warning().as_deref(), Some("skipped 1 non-vector record type(s) (iType: 81)"));
    let mut text = String::from("n=");
    push_decimal(&mut text, 1203);
    assert_eq!(text, "n=1203");
}
