use vecmeta::emit_objects::{brush_eq_ignoring_handle, pen_eq_ignoring_handle, GdiObjects};
use vecmeta::gdi::{
    bezier_to_segs, brush_of, build_pen, classify_unknown, cosmetic_pen, pen_style, poly_to_segs,
    polydraw_segs, polydraw_types_cover, polypoly_segs, rect_segs, stock_selection, Seg, StockSelection, UnknownRecord,
};
use vecmeta::records::EmfRecord;
use vecmeta::style::{LineCap, LineJoin, Rgb};
use vecmeta::types::{
    ColorRef, PointL, RectL, BS_NULL, BS_SOLID, GRAY_BRUSH, NULL_BRUSH, NULL_PEN, PS_DASH,
    PS_DASHDOT, PS_ENDCAP_FLAT, PS_ENDCAP_SQUARE, PS_GEOMETRIC, PS_JOIN_BEVEL, PS_JOIN_MITER,
    PS_NULL, PS_USERSTYLE, PT_BEZIERTO, PT_CLOSEFIGURE, PT_LINETO, PT_MOVETO, STOCK_OBJECT_FLAG,
    WHITE_PEN,
};

fn p(x: i32, y: i32) -> PointL {
    PointL::new(x, y)
}

#[test]
fn pens_from_styles() {
    let c = ColorRef::new(1, 2, 3);
    assert_eq!(build_pen(PS_NULL, 5, c, false, &[]), None);
    let pen = build_pen(PS_DASH | PS_ENDCAP_SQUARE | PS_JOIN_BEVEL, 0, c, false, &[]).unwrap();
    assert!(pen.cosmetic);
    assert_eq!(pen.width, 1);
    assert_eq!(pen.dash, Some(vec![3, 3]));
    assert_eq!(pen.cap, LineCap::Square);
    assert_eq!(pen.join, LineJoin::Bevel);
    assert_eq!(pen.color, Rgb::new(1, 2, 3));
    let pen = build_pen(PS_GEOMETRIC | PS_DASHDOT | PS_ENDCAP_FLAT | PS_JOIN_MITER, 4, c, true, &[]).unwrap();
    assert!(!pen.cosmetic);
    assert_eq!(pen.dash, Some(vec![12, 4, 4, 4]));
    assert_eq!(pen.cap, LineCap::Flat);
    assert_eq!(pen.join, LineJoin::Miter);
    let pen = build_pen(PS_GEOMETRIC | PS_USERSTYLE, 2, c, true, &[36, 12]).unwrap();
    assert_eq!(pen.dash, Some(vec![36, 12]));
    assert_eq!(pen.cap, LineCap::Round);
    let pen = build_pen(PS_GEOMETRIC | PS_USERSTYLE, 2, c, true, &[]).unwrap();
    assert_eq!(pen.dash, None);
}

#[test]
fn brushes_and_stock_objects() {
    assert_eq!(brush_of(BS_NULL, ColorRef::new(1, 1, 1)), None);
    assert_eq!(brush_of(BS_SOLID, ColorRef::new(1, 2, 3)), Some(Rgb::new(1, 2, 3)));
    assert_eq!(stock_selection(5), StockSelection::NotStock);
    assert_eq!(
        stock_selection(STOCK_OBJECT_FLAG | GRAY_BRUSH),
        StockSelection::Brush(Some(Rgb::new(128, 128, 128)))
    );
    assert_eq!(stock_selection(STOCK_OBJECT_FLAG | NULL_BRUSH), StockSelection::Brush(None));
    assert_eq!(
        stock_selection(STOCK_OBJECT_FLAG | WHITE_PEN),
        StockSelection::Pen(Some(cosmetic_pen(Rgb::new(255, 255, 255))))
    );
    assert_eq!(stock_selection(STOCK_OBJECT_FLAG | NULL_PEN), StockSelection::Pen(None));
    assert_eq!(stock_selection(STOCK_OBJECT_FLAG | 14), StockSelection::Ignored);
}

#[test]
fn point_lists_as_commands() {
    let pts = [p(0, 0), p(1, 1), p(2, 0)];
    assert_eq!(
        poly_to_segs(&pts, true, false),
        vec![Seg::MoveTo(p(0, 0)), Seg::LineTo(p(1, 1)), Seg::LineTo(p(2, 0)), Seg::Close]
    );
    assert_eq!(
        poly_to_segs(&pts[..1], false, true),
        vec![Seg::MoveToCurrent, Seg::LineTo(p(0, 0))]
    );
    assert_eq!(poly_to_segs(&[], true, true), vec![]);
    let b = [p(0, 0), p(1, 1), p(2, 2), p(3, 3), p(4, 4), p(5, 5)];
    assert_eq!(
        bezier_to_segs(&b, false),
        vec![Seg::MoveTo(p(0, 0)), Seg::CubicTo(p(1, 1), p(2, 2), p(3, 3))]
    );
    assert_eq!(
        bezier_to_segs(&b, true),
        vec![
            Seg::MoveToCurrent,
            Seg::CubicTo(p(0, 0), p(1, 1), p(2, 2)),
            Seg::CubicTo(p(3, 3), p(4, 4), p(5, 5))
        ]
    );
    assert_eq!(
        polypoly_segs(&[2, 0, 1, 5], &[p(0, 0), p(1, 0), p(9, 9)], true),
        vec![
            Seg::MoveTo(p(0, 0)),
            Seg::LineTo(p(1, 0)),
            Seg::Close,
            Seg::MoveTo(p(9, 9)),
            Seg::Close
        ]
    );
    assert_eq!(
        rect_segs(&RectL::new(1, 2, 3, 4)),
        vec![
            Seg::MoveTo(p(1, 2)),
            Seg::LineTo(p(3, 2)),
            Seg::LineTo(p(3, 4)),
            Seg::LineTo(p(1, 4)),
            Seg::Close
        ]
    );
}

#[test]
fn polydraw_types() {
    let pts = [p(0, 0), p(1, 1), p(2, 2), p(3, 3), p(4, 4), p(5, 5)];
    let types = [
        PT_MOVETO,
        PT_LINETO | PT_CLOSEFIGURE,
        PT_BEZIERTO,
        PT_BEZIERTO,
        PT_BEZIERTO | PT_CLOSEFIGURE,
        0x40,
    ];
    assert_eq!(
        polydraw_segs(&pts, &types),
        vec![
            Seg::MoveToCurrent,
            Seg::MoveTo(p(0, 0)),
            Seg::LineTo(p(1, 1)),
            Seg::Close,
            Seg::CubicTo(p(2, 2), p(3, 3), p(4, 4)),
            Seg::Close
        ]
    );
    // A Bézier without enough points left is dropped.
    assert_eq!(
        polydraw_segs(&pts[..2], &[PT_BEZIERTO, PT_BEZIERTO]),
        vec![Seg::MoveToCurrent]
    );
}

#[test]
fn verbatim_records() {
    assert_eq!(
        classify_unknown(24, &[9, 8, 7, 0]),
        UnknownRecord::TextColor(Rgb::new(9, 8, 7))
    );
    assert_eq!(classify_unknown(24, &[9]), UnknownRecord::Nothing);
    assert_eq!(classify_unknown(82, &[1, 2]), UnknownRecord::Nothing);
    assert_eq!(classify_unknown(84, &[0; 10]), UnknownRecord::Nothing);
    assert_eq!(classify_unknown(76, &[]), UnknownRecord::Skipped);
}

fn pen(ih: u32, width: u32) -> EmfRecord {
    EmfRecord::ExtCreatePen {
        ih,
        style: PS_GEOMETRIC,
        width,
        brush_style: BS_SOLID,
        color: ColorRef::new(1, 2, 3),
        hatch: 0,
        style_entries: vec![],
    }
}

#[test]
fn pens_and_brushes_are_shared() {
    assert!(pen_eq_ignoring_handle(&pen(1, 4), &pen(7, 4)));
    assert!(!pen_eq_ignoring_handle(&pen(1, 4), &pen(1, 5)));
    assert!(!pen_eq_ignoring_handle(&pen(1, 4), &EmfRecord::Eof));
    let brush = |ih, r| EmfRecord::CreateBrushIndirect {
        ih,
        style: BS_SOLID,
        color: ColorRef::new(r, 0, 0),
        hatch: 0,
    };
    assert!(brush_eq_ignoring_handle(&brush(1, 5), &brush(2, 5)));
    assert!(!brush_eq_ignoring_handle(&brush(1, 5), &brush(1, 6)));

    let mut g = GdiObjects::new();
    let mut out: Vec<EmfRecord> = Vec::new();
    g.select_pen(&mut out, Some(pen(0, 4)));
    g.select_brush(&mut out, Some(ColorRef::new(9, 9, 9)));
    // The same pen again: already selected, nothing written.
    g.select_pen(&mut out, Some(pen(0, 4)));
    g.select_pen(&mut out, None);
    // Back to the first pen: selected again, not created again.
    g.select_pen(&mut out, Some(pen(0, 4)));
    g.select_brush(&mut out, None);
    assert_eq!(
        out,
        vec![
            pen(1, 4),
            EmfRecord::SelectObject(1),
            EmfRecord::CreateBrushIndirect {
                ih: 2,
                style: BS_SOLID,
                color: ColorRef::new(9, 9, 9),
                hatch: 0
            },
            EmfRecord::SelectObject(2),
            EmfRecord::SelectObject(STOCK_OBJECT_FLAG | NULL_PEN),
            EmfRecord::SelectObject(1),
            EmfRecord::SelectObject(STOCK_OBJECT_FLAG | NULL_BRUSH),
        ]
    );
    assert_eq!(g.max_handle(), 2);
}

#[test]
fn pen_styles_read_back() {
    let caps = [LineCap::Round, LineCap::Square, LineCap::Flat];
    let joins = [LineJoin::Round, LineJoin::Bevel, LineJoin::Miter];
    for cap in caps {
        for join in joins {
            for dashed in [false, true] {
                let style = pen_style(cap, join, dashed);
                let entries: Vec<u32> = if dashed { vec![6, 2] } else { vec![] };
                let p = build_pen(style, 4, ColorRef::new(1, 2, 3), true, &entries).unwrap();
                assert_eq!(p.cap, cap);
                assert_eq!(p.join, join);
                assert!(!p.cosmetic);
                assert_eq!(p.width, 4);
                assert_eq!(p.dash, if dashed { Some(vec![6, 2]) } else { None });
            }
        }
    }
    assert_eq!(pen_style(LineCap::Flat, LineJoin::Miter, false), 0x0001_2200);
    assert_eq!(pen_style(LineCap::Round, LineJoin::Round, true), 0x0001_0007);
}

#[test]
fn polydraw_type_bytes_must_reach_each_bezier_end() {
    let pts = [p(0, 0), p(1, 1), p(2, 2), p(3, 3)];
    // Fewer type bytes than points, but every drawn Bézier is covered.
    assert!(polydraw_types_cover(&pts, &[PT_MOVETO, PT_LINETO]));
    assert!(polydraw_types_cover(&pts, &[PT_MOVETO, PT_BEZIERTO, PT_LINETO, PT_LINETO]));
    // The Bézier at index 1 needs the type byte of point 3.
    assert!(!polydraw_types_cover(&pts, &[PT_MOVETO, PT_BEZIERTO, PT_LINETO]));
    // A Bézier with too few points left is dropped, so it needs nothing.
    assert!(polydraw_types_cover(&pts[..2], &[PT_BEZIERTO]));
}
