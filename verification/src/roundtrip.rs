//! The write/read symmetry of the EMF format: what the writer emits, the
//! reader parses back to the same header and records.

use vstd::prelude::*;
use crate::reader::{
    spec_poly, spec_polydraw, spec_polypoly, is_object_type, is_poly_type, is_shape_type, is_state_type, point_l_at, points_l_at, seq_sum,
    point_s_at, points_s_at, points_size, spec_points,
    chain, spec_frame, spec_frames, spec_parse_file, spec_parse_header, EmfFileModel, spec_object_record, spec_parse_record, spec_poly_record, spec_shape_record,
    spec_state_record, u32s_at,
};
use crate::records::{EmfHeader, RecordModel};
use crate::writer::{
    arc_le, color_le, fits16, frame_le, frames_le, point16_le, point_le, points16_le, points_le,
    points_w_le, poly_le, poly_type, polypoly_le, rect_le, size_le,
    header_le, header_post, header_pre, spec_point_bounds, spec_record_bytes, spec_write_emf,
    u32s_le,
};
use crate::types;
use crate::error::EmfError;
use crate::types::{ColorRef, PointL, RectL, SizeL};
use crate::wire::{
    group_wire, i32_at, i32_le, lemma_read_i32, lemma_read_u16, lemma_read_u32, lemma_trunc32_id,
    pad4, trunc32, u16_le, u32_at, u32_le,
};

verus! {

broadcast use group_wire;

pub proof fn lemma_read_point(pre: Seq<u8>, p: PointL, post: Seq<u8>)
    ensures
        point_l_at(pre + point_le(p) + post, pre.len() as int) == p,
        (pre + point_le(p) + post).len() == pre.len() + 8 + post.len(),
{
    let s = pre + point_le(p) + post;
    lemma_read_i32(pre, p.x, i32_le(p.y) + post);
    assert(s =~= pre + i32_le(p.x) + (i32_le(p.y) + post));
    lemma_read_i32(pre + i32_le(p.x), p.y, post);
    assert(s =~= (pre + i32_le(p.x)) + i32_le(p.y) + post);
}

pub proof fn lemma_read_points(pre: Seq<u8>, pts: Seq<PointL>, post: Seq<u8>)
    ensures
        points_l_at(pre + points_le(pts) + post, pre.len() as int, pts.len()) == pts,
        points_le(pts).len() == 8 * pts.len(),
    decreases pts.len(),
{
    let s = pre + points_le(pts) + post;
    if pts.len() == 0 {
        assert(points_l_at(s, pre.len() as int, 0) =~= pts);
    } else {
        let init = pts.drop_last();
        let last = pts.last();
        lemma_read_points(pre, init, point_le(last) + post);
        assert(s =~= pre + points_le(init) + (point_le(last) + post));
        lemma_read_point(pre + points_le(init), last, post);
        assert(s =~= (pre + points_le(init)) + point_le(last) + post);
        let i = pre.len() as int;
        let n = pts.len();
        assert forall|k: int| 0 <= k < n implies #[trigger] points_l_at(s, i, n)[k] == pts[k] by {
            if k < n - 1 {
                assert(points_l_at(s, i, (n - 1) as nat)[k] == init[k]);
            }
        }
        assert(points_l_at(s, i, n) =~= pts);
    }
}

pub proof fn lemma_read_u32s(pre: Seq<u8>, vs: Seq<u32>, post: Seq<u8>)
    ensures
        u32s_at(pre + u32s_le(vs) + post, pre.len() as int, vs.len()) == vs,
        u32s_le(vs).len() == 4 * vs.len(),
    decreases vs.len(),
{
    let s = pre + u32s_le(vs) + post;
    if vs.len() == 0 {
        assert(u32s_at(s, pre.len() as int, 0) =~= vs);
    } else {
        let init = vs.drop_last();
        let last = vs.last();
        lemma_read_u32s(pre, init, u32_le(last) + post);
        assert(s =~= pre + u32s_le(init) + (u32_le(last) + post));
        lemma_read_u32(pre + u32s_le(init), last, post);
        assert(s =~= (pre + u32s_le(init)) + u32_le(last) + post);
        let i = pre.len() as int;
        let n = vs.len();
        assert forall|k: int| 0 <= k < n implies #[trigger] u32s_at(s, i, n)[k] == vs[k] by {
            if k < n - 1 {
                assert(u32s_at(s, i, (n - 1) as nat)[k] == init[k]);
            }
        }
        assert(u32s_at(s, i, n) =~= vs);
    }
}


/// Records written as fixed state and transform frames.
pub open spec fn is_state_model(r: RecordModel) -> bool {
    match r {
        RecordModel::Eof | RecordModel::SetMapMode(_) | RecordModel::SetWindowExtEx(_)
        | RecordModel::SetWindowOrgEx(_) | RecordModel::SetViewportExtEx(_)
        | RecordModel::SetViewportOrgEx(_) | RecordModel::SetPolyfillMode(_)
        | RecordModel::SetMiterLimit(_) | RecordModel::SetArcDirection(_)
        | RecordModel::MoveToEx(_) | RecordModel::SaveDc | RecordModel::RestoreDc(_)
        | RecordModel::SetWorldTransform(_) | RecordModel::ModifyWorldTransform { .. } => true,
        _ => false,
    }
}

proof fn lemma_state_round_trip(r: RecordModel)
    requires
        is_state_model(r),
    ensures
        spec_parse_record(spec_record_bytes(r).0, spec_record_bytes(r).1) == Ok::<RecordModel, crate::error::EmfError>(r),
        spec_record_bytes(r).1.len() % 4 == 0,
        is_state_type(spec_record_bytes(r).0),
{
    reveal(spec_record_bytes);
    reveal(spec_parse_record);
    reveal(spec_state_record);
    let (t, b) = spec_record_bytes(r);
    match r {
        RecordModel::SetWindowExtEx(sz) => {
            lemma_read_i32(seq![], sz.cx, i32_le(sz.cy));
        },
        _ => {},
    }
}


/// Records written as object creation and selection frames.
pub open spec fn is_object_model(r: RecordModel) -> bool {
    match r {
        RecordModel::CreatePen { .. } | RecordModel::ExtCreatePen { .. }
        | RecordModel::CreateBrushIndirect { .. } | RecordModel::SelectObject(_)
        | RecordModel::DeleteObject(_) => true,
        _ => false,
    }
}

proof fn lemma_object_bytes(
    ih: u32,
    style: u32,
    width: i32,
    color: ColorRef,
    hatch: u32,
    v: u32,
)
    ensures
        spec_record_bytes(RecordModel::CreatePen { ih, style, width, color }) == (
            types::EMR_CREATEPEN,
            u32_le(ih) + u32_le(style) + point_le(PointL { x: width, y: 0 }) + color_le(color),
        ),
        spec_record_bytes(RecordModel::CreateBrushIndirect { ih, style, color, hatch }) == (
            types::EMR_CREATEBRUSHINDIRECT,
            u32_le(ih) + u32_le(style) + color_le(color) + u32_le(hatch),
        ),
        spec_record_bytes(RecordModel::SelectObject(v)) == (types::EMR_SELECTOBJECT, u32_le(v)),
        spec_record_bytes(RecordModel::DeleteObject(v)) == (types::EMR_DELETEOBJECT, u32_le(v)),
{
    reveal(spec_record_bytes);
}

/// The fixed part of an EXTCREATEPEN payload, up to the style entries.
spec fn ext_pen_head(
    ih: u32,
    style: u32,
    width: u32,
    brush_style: u32,
    color: ColorRef,
    hatch: u32,
    n: nat,
) -> Seq<u8> {
    u32_le(ih) + u32_le(0) + u32_le(0) + u32_le(0) + u32_le(0) + u32_le(style) + u32_le(width)
        + u32_le(brush_style) + color_le(color) + u32_le(hatch) + u32_le(trunc32(n as int))
}

proof fn lemma_ext_pen_bytes(
    ih: u32,
    style: u32,
    width: u32,
    brush_style: u32,
    color: ColorRef,
    hatch: u32,
    style_entries: Seq<u32>,
)
    ensures
        spec_record_bytes(
            RecordModel::ExtCreatePen { ih, style, width, brush_style, color, hatch, style_entries },
        ) == (
            types::EMR_EXTCREATEPEN,
            ext_pen_head(ih, style, width, brush_style, color, hatch, style_entries.len())
                + u32s_le(style_entries),
        ),
{
    reveal(spec_record_bytes);
}

proof fn lemma_ext_pen_parse(
    ih: u32,
    style: u32,
    width: u32,
    brush_style: u32,
    color: ColorRef,
    hatch: u32,
    style_entries: Seq<u32>,
)
    requires
        4 * style_entries.len() + 44 < 0x1_0000_0000,
    ensures
        spec_parse_record(
            types::EMR_EXTCREATEPEN,
            ext_pen_head(ih, style, width, brush_style, color, hatch, style_entries.len())
                + u32s_le(style_entries),
        ) == Ok::<RecordModel, EmfError>(
            RecordModel::ExtCreatePen { ih, style, width, brush_style, color, hatch, style_entries },
        ),
{
    let n = style_entries.len();
    let pre = ext_pen_head(ih, style, width, brush_style, color, hatch, n);
    let b = pre + u32s_le(style_entries);
    lemma_read_u32s(pre, style_entries, seq![]);
    assert(b =~= pre + u32s_le(style_entries) + seq![]);
    assert(pre.len() == 44);
    lemma_trunc32_id(n as int);
    assert(u32_at(b, 40) == n);
    reveal(spec_parse_record);
    reveal(spec_object_record);
}

proof fn lemma_object_parse(ih: u32, style: u32, width: i32, color: ColorRef, hatch: u32, v: u32)
    ensures
        spec_parse_record(
            types::EMR_CREATEPEN,
            u32_le(ih) + u32_le(style) + point_le(PointL { x: width, y: 0 }) + color_le(color),
        ) == Ok::<RecordModel, EmfError>(RecordModel::CreatePen { ih, style, width, color }),
        spec_parse_record(
            types::EMR_CREATEBRUSHINDIRECT,
            u32_le(ih) + u32_le(style) + color_le(color) + u32_le(hatch),
        ) == Ok::<RecordModel, EmfError>(
            RecordModel::CreateBrushIndirect { ih, style, color, hatch },
        ),
        spec_parse_record(types::EMR_SELECTOBJECT, u32_le(v)) == Ok::<RecordModel, EmfError>(
            RecordModel::SelectObject(v),
        ),
        spec_parse_record(types::EMR_DELETEOBJECT, u32_le(v)) == Ok::<RecordModel, EmfError>(
            RecordModel::DeleteObject(v),
        ),
{
    reveal(spec_parse_record);
    reveal(spec_object_record);
}

proof fn lemma_object_round_trip(r: RecordModel)
    requires
        is_object_model(r),
        spec_record_bytes(r).1.len() < 0x1_0000_0000,
    ensures
        spec_parse_record(spec_record_bytes(r).0, spec_record_bytes(r).1) == Ok::<RecordModel, EmfError>(r),
        spec_record_bytes(r).1.len() % 4 == 0,
{
    match r {
        RecordModel::ExtCreatePen { ih, style, width, brush_style, color, hatch, style_entries } => {
            lemma_ext_pen_bytes(ih, style, width, brush_style, color, hatch, style_entries);
            lemma_read_u32s(seq![], style_entries, seq![]);
            lemma_ext_pen_parse(ih, style, width, brush_style, color, hatch, style_entries);
        },
        RecordModel::CreatePen { ih, style, width, color } => {
            lemma_object_bytes(ih, style, width, color, 0, 0);
            lemma_object_parse(ih, style, width, color, 0, 0);
        },
        RecordModel::CreateBrushIndirect { ih, style, color, hatch } => {
            lemma_object_bytes(ih, style, 0, color, hatch, 0);
            lemma_object_parse(ih, style, 0, color, hatch, 0);
        },
        RecordModel::SelectObject(v) => {
            lemma_object_bytes(0, 0, 0, ColorRef { r: 0, g: 0, b: 0 }, 0, v);
            lemma_object_parse(0, 0, 0, ColorRef { r: 0, g: 0, b: 0 }, 0, v);
        },
        RecordModel::DeleteObject(v) => {
            lemma_object_bytes(0, 0, 0, ColorRef { r: 0, g: 0, b: 0 }, 0, v);
            lemma_object_parse(0, 0, 0, ColorRef { r: 0, g: 0, b: 0 }, 0, v);
        },
        _ => {},
    }
}

proof fn lemma_words(k: int)
    ensures
        (4 * k) % 4 == 0,
{
    assert((4 * k) % 4 == 0) by (nonlinear_arith);
}


proof fn lemma_i16_round(v: i32)
    requires
        -32768 <= v <= 32767,
    ensures
        ((v as u16) as i16) as i32 == v,
{
    assert(((v as u16) as i16) as i32 == v) by (bit_vector)
        requires
            -32768 <= v <= 32767,
    ;
}

pub proof fn lemma_read_point16(pre: Seq<u8>, p: PointL, post: Seq<u8>)
    requires
        -32768 <= p.x <= 32767,
        -32768 <= p.y <= 32767,
    ensures
        point_s_at(pre + point16_le(p) + post, pre.len() as int) == p,
        (pre + point16_le(p) + post).len() == pre.len() + 4 + post.len(),
{
    let s = pre + point16_le(p) + post;
    lemma_read_u16(pre, p.x as u16, u16_le(p.y as u16) + post);
    assert(s =~= pre + u16_le(p.x as u16) + (u16_le(p.y as u16) + post));
    lemma_read_u16(pre + u16_le(p.x as u16), p.y as u16, post);
    assert(s =~= (pre + u16_le(p.x as u16)) + u16_le(p.y as u16) + post);
    lemma_i16_round(p.x);
    lemma_i16_round(p.y);
}

pub proof fn lemma_read_points16(pre: Seq<u8>, pts: Seq<PointL>, post: Seq<u8>)
    requires
        fits16(pts),
    ensures
        points_s_at(pre + points16_le(pts) + post, pre.len() as int, pts.len()) == pts,
        points16_le(pts).len() == 4 * pts.len(),
    decreases pts.len(),
{
    let s = pre + points16_le(pts) + post;
    if pts.len() == 0 {
        assert(points_s_at(s, pre.len() as int, 0) =~= pts);
    } else {
        let init = pts.drop_last();
        let last = pts.last();
        assert(fits16(init)) by {
            assert forall|i: int| 0 <= i < init.len() implies -32768 <= #[trigger] init[i].x <= 32767
                && -32768 <= init[i].y <= 32767 by {
                assert(init[i] == pts[i]);
            }
        }
        assert(pts[pts.len() - 1] == last);
        lemma_read_points16(pre, init, point16_le(last) + post);
        assert(s =~= pre + points16_le(init) + (point16_le(last) + post));
        lemma_read_point16(pre + points16_le(init), last, post);
        assert(s =~= (pre + points16_le(init)) + point16_le(last) + post);
        let i = pre.len() as int;
        let n = pts.len();
        assert forall|k: int| 0 <= k < n implies #[trigger] points_s_at(s, i, n)[k] == pts[k] by {
            if k < n - 1 {
                assert(points_s_at(s, i, (n - 1) as nat)[k] == init[k]);
            }
        }
        assert(points_s_at(s, i, n) =~= pts);
    }
}

/// Points written in the given width read back, and their size.
proof fn lemma_read_points_w(pre: Seq<u8>, pts: Seq<PointL>, post: Seq<u8>, wide: bool)
    requires
        wide || fits16(pts),
    ensures
        spec_points(pre + points_w_le(pts, wide) + post, pre.len() as int, pts.len() as int, wide)
            == Ok::<Seq<PointL>, EmfError>(pts),
        points_w_le(pts, wide).len() == points_size(pts.len() as int, wide),
{
    let s = pre + points_w_le(pts, wide) + post;
    if wide {
        lemma_read_points(pre, pts, post);
    } else {
        lemma_read_points16(pre, pts, post);
    }
    assert(s.len() == pre.len() + points_size(pts.len() as int, wide) + post.len());
    if wide {
        assert(pts.len() <= (s.len() - pre.len()) / 8) by (nonlinear_arith)
            requires
                s.len() - pre.len() >= 8 * pts.len(),
        ;
    } else {
        assert(pts.len() <= (s.len() - pre.len()) / 4) by (nonlinear_arith)
            requires
                s.len() - pre.len() >= 4 * pts.len(),
        ;
    }
}

proof fn lemma_poly_body(pts: Seq<PointL>, post: Seq<u8>, wide: bool)
    requires
        poly_le(pts, wide).len() < 0x1_0000_0000,
        wide || fits16(pts),
    ensures
        spec_poly(poly_le(pts, wide) + post, wide) == Ok::<Seq<PointL>, EmfError>(pts),
        poly_le(pts, wide).len() == 20 + points_size(pts.len() as int, wide),
{
    let n = pts.len();
    let r = rect_le(spec_point_bounds(pts));
    let w = u32_le(trunc32(n as int));
    let ps = points_w_le(pts, wide);
    let b = poly_le(pts, wide) + post;
    assert(b == r + w + ps + post);
    assert(r.len() == 16);
    lemma_read_points_w(r + w, pts, post, wide);
    lemma_trunc32_id(n as int);
    assert(u32_at(b, 16) == n) by {
        lemma_read_u32(r, trunc32(n as int), ps + post);
        assert(r + w + ps + post =~= r + w + (ps + post));
    }
}

proof fn lemma_polypoly_body(counts: Seq<u32>, pts: Seq<PointL>, wide: bool)
    requires
        polypoly_le(counts, pts, wide).len() < 0x1_0000_0000,
        seq_sum(counts) == pts.len(),
        wide || fits16(pts),
    ensures
        spec_polypoly(polypoly_le(counts, pts, wide), wide) == Ok::<(Seq<u32>, Seq<PointL>), crate::error::EmfError>((counts, pts)),
        polypoly_le(counts, pts, wide).len() == 24 + 4 * counts.len() + points_size(pts.len() as int, wide),
{
    let np = counts.len();
    let n = pts.len();
    let r = rect_le(spec_point_bounds(pts));
    let w0 = u32_le(trunc32(np as int));
    let w1 = u32_le(trunc32(n as int));
    let cs = u32s_le(counts);
    let ps = points_w_le(pts, wide);
    let b = polypoly_le(counts, pts, wide);
    assert(b == r + w0 + w1 + cs + ps);
    assert(r.len() == 16);
    assert(u32s_at(b, 24, np) == counts && cs.len() == 4 * np) by {
        lemma_read_u32s(r + w0 + w1, counts, ps);
    }
    assert(spec_points(b, (24 + 4 * np) as int, n as int, wide) == Ok::<Seq<PointL>, EmfError>(pts)
        && ps.len() == points_size(n as int, wide)) by {
        lemma_read_points_w(r + w0 + w1 + cs, pts, seq![], wide);
        assert(r + w0 + w1 + cs + ps =~= r + w0 + w1 + cs + ps + seq![]);
    }
    lemma_trunc32_id(np as int);
    lemma_trunc32_id(n as int);
    assert(u32_at(b, 16) == np) by {
        lemma_read_u32(r, trunc32(np as int), w1 + cs + ps);
        assert(r + w0 + w1 + cs + ps =~= r + w0 + (w1 + cs + ps));
    }
    assert(u32_at(b, 20) == n) by {
        lemma_read_u32(r + w0, trunc32(n as int), cs + ps);
        assert(r + w0 + w1 + cs + ps =~= r + w0 + w1 + (cs + ps));
    }
}

proof fn lemma_polydraw_body(pts: Seq<PointL>, types: Seq<u8>, wide: bool)
    requires
        pad4(poly_le(pts, wide) + types).len() < 0x1_0000_0000,
        types.len() == pts.len(),
        wide || fits16(pts),
    ensures
        spec_polydraw(pad4(poly_le(pts, wide) + types), wide) == Ok::<(Seq<PointL>, Seq<u8>), crate::error::EmfError>((pts, types)),
{
    let b = pad4(poly_le(pts, wide) + types);
    let post = b.subrange(poly_le(pts, wide).len() as int, b.len() as int);
    assert(b =~= poly_le(pts, wide) + post);
    lemma_poly_body(pts, post, wide);
    let off = 20 + points_size(pts.len() as int, wide);
    assert(b.subrange(off as int, (off + pts.len()) as int) =~= types);
}

proof fn lemma_parse_poly_records(b: Seq<u8>, pts: Seq<PointL>, wide: bool)
    requires
        spec_poly(b, wide) == Ok::<Seq<PointL>, crate::error::EmfError>(pts),
    ensures
        spec_parse_record(if wide { types::EMR_POLYBEZIER } else { types::EMR_POLYBEZIER16 }, b) == Ok::<RecordModel, crate::error::EmfError>(RecordModel::Polybezier(pts)),
        spec_parse_record(if wide { types::EMR_POLYGON } else { types::EMR_POLYGON16 }, b) == Ok::<RecordModel, crate::error::EmfError>(RecordModel::Polygon(pts)),
        spec_parse_record(if wide { types::EMR_POLYLINE } else { types::EMR_POLYLINE16 }, b) == Ok::<RecordModel, crate::error::EmfError>(RecordModel::Polyline(pts)),
        spec_parse_record(if wide { types::EMR_POLYBEZIERTO } else { types::EMR_POLYBEZIERTO16 }, b) == Ok::<RecordModel, crate::error::EmfError>(RecordModel::PolybezierTo(pts)),
        spec_parse_record(if wide { types::EMR_POLYLINETO } else { types::EMR_POLYLINETO16 }, b) == Ok::<RecordModel, crate::error::EmfError>(RecordModel::PolylineTo(pts)),
{
    reveal(spec_parse_record);
    reveal(spec_poly_record);
}

proof fn lemma_parse_polypoly_records(b: Seq<u8>, counts: Seq<u32>, pts: Seq<PointL>, wide: bool)
    requires
        spec_polypoly(b, wide) == Ok::<(Seq<u32>, Seq<PointL>), crate::error::EmfError>((counts, pts)),
    ensures
        spec_parse_record(if wide { types::EMR_POLYPOLYLINE } else { types::EMR_POLYPOLYLINE16 }, b) == Ok::<RecordModel, crate::error::EmfError>(RecordModel::Polypolyline { counts, pts }),
        spec_parse_record(if wide { types::EMR_POLYPOLYGON } else { types::EMR_POLYPOLYGON16 }, b) == Ok::<RecordModel, crate::error::EmfError>(RecordModel::Polypolygon { counts, pts }),
{
    reveal(spec_parse_record);
    reveal(spec_poly_record);
}

proof fn lemma_parse_polydraw_record(b: Seq<u8>, pts: Seq<PointL>, types: Seq<u8>, wide: bool)
    requires
        spec_polydraw(b, wide) == Ok::<(Seq<PointL>, Seq<u8>), crate::error::EmfError>((pts, types)),
    ensures
        spec_parse_record(if wide { types::EMR_POLYDRAW } else { types::EMR_POLYDRAW16 }, b) == Ok::<RecordModel, crate::error::EmfError>(RecordModel::PolyDraw { pts, types }),
{
    reveal(spec_parse_record);
    reveal(spec_poly_record);
}

/// Records written as point-list frames.
pub open spec fn is_poly_model(r: RecordModel) -> bool {
    match r {
        RecordModel::Polybezier(_) | RecordModel::Polygon(_) | RecordModel::Polyline(_)
        | RecordModel::PolybezierTo(_) | RecordModel::PolylineTo(_)
        | RecordModel::Polypolyline { .. } | RecordModel::Polypolygon { .. }
        | RecordModel::PolyDraw { .. } => true,
        _ => false,
    }
}

proof fn lemma_poly_bytes(pts: Seq<PointL>)
    ensures
        spec_record_bytes(RecordModel::Polybezier(pts)) == (poly_type(pts, types::EMR_POLYBEZIER, types::EMR_POLYBEZIER16), poly_le(pts, !fits16(pts))),
        spec_record_bytes(RecordModel::Polygon(pts)) == (poly_type(pts, types::EMR_POLYGON, types::EMR_POLYGON16), poly_le(pts, !fits16(pts))),
        spec_record_bytes(RecordModel::Polyline(pts)) == (poly_type(pts, types::EMR_POLYLINE, types::EMR_POLYLINE16), poly_le(pts, !fits16(pts))),
        spec_record_bytes(RecordModel::PolybezierTo(pts)) == (poly_type(pts, types::EMR_POLYBEZIERTO, types::EMR_POLYBEZIERTO16), poly_le(pts, !fits16(pts))),
        spec_record_bytes(RecordModel::PolylineTo(pts)) == (poly_type(pts, types::EMR_POLYLINETO, types::EMR_POLYLINETO16), poly_le(pts, !fits16(pts))),
{
    reveal(spec_record_bytes);
}

proof fn lemma_polypoly_bytes(counts: Seq<u32>, pts: Seq<PointL>)
    ensures
        spec_record_bytes(RecordModel::Polypolyline { counts, pts }) == (
            poly_type(pts, types::EMR_POLYPOLYLINE, types::EMR_POLYPOLYLINE16),
            polypoly_le(counts, pts, !fits16(pts)),
        ),
        spec_record_bytes(RecordModel::Polypolygon { counts, pts }) == (
            poly_type(pts, types::EMR_POLYPOLYGON, types::EMR_POLYPOLYGON16),
            polypoly_le(counts, pts, !fits16(pts)),
        ),
{
    reveal(spec_record_bytes);
}

proof fn lemma_polydraw_bytes(pts: Seq<PointL>, kinds: Seq<u8>)
    ensures
        spec_record_bytes(RecordModel::PolyDraw { pts, types: kinds }) == (
            poly_type(pts, types::EMR_POLYDRAW, types::EMR_POLYDRAW16),
            pad4(poly_le(pts, !fits16(pts)) + kinds),
        ),
{
    reveal(spec_record_bytes);
}

/// A single point list (the five simple poly records) reads back.
proof fn lemma_simple_poly_round_trip(pts: Seq<PointL>)
    requires
        poly_le(pts, !fits16(pts)).len() < 0x1_0000_0000,
    ensures
        ({
            let b = poly_le(pts, !fits16(pts));
            &&& b.len() % 4 == 0
            &&& spec_poly(b, !fits16(pts)) == Ok::<Seq<PointL>, EmfError>(pts)
        }),
{
    let wide = !fits16(pts);
    lemma_poly_body(pts, seq![], wide);
    assert(poly_le(pts, wide) + seq![] =~= poly_le(pts, wide));
    if wide {
        lemma_words((5 + 2 * pts.len()) as int);
    } else {
        lemma_words((5 + pts.len()) as int);
    }
}

proof fn lemma_poly_round_trip(r: RecordModel)
    requires
        is_poly_model(r),
        spec_record_bytes(r).1.len() < 0x1_0000_0000,
        r matches RecordModel::Polypolyline { counts, pts } ==> seq_sum(counts) == pts.len(),
        r matches RecordModel::Polypolygon { counts, pts } ==> seq_sum(counts) == pts.len(),
        r matches RecordModel::PolyDraw { pts, types } ==> types.len() == pts.len(),
    ensures
        spec_parse_record(spec_record_bytes(r).0, spec_record_bytes(r).1) == Ok::<RecordModel, crate::error::EmfError>(r),
        spec_record_bytes(r).1.len() % 4 == 0,
{
    match r {
        RecordModel::Polybezier(pts) => {
            lemma_poly_bytes(pts);
            lemma_simple_poly_round_trip(pts);
            lemma_parse_poly_records(poly_le(pts, !fits16(pts)), pts, !fits16(pts));
        },
        RecordModel::Polygon(pts) => {
            lemma_poly_bytes(pts);
            lemma_simple_poly_round_trip(pts);
            lemma_parse_poly_records(poly_le(pts, !fits16(pts)), pts, !fits16(pts));
        },
        RecordModel::Polyline(pts) => {
            lemma_poly_bytes(pts);
            lemma_simple_poly_round_trip(pts);
            lemma_parse_poly_records(poly_le(pts, !fits16(pts)), pts, !fits16(pts));
        },
        RecordModel::PolybezierTo(pts) => {
            lemma_poly_bytes(pts);
            lemma_simple_poly_round_trip(pts);
            lemma_parse_poly_records(poly_le(pts, !fits16(pts)), pts, !fits16(pts));
        },
        RecordModel::PolylineTo(pts) => {
            lemma_poly_bytes(pts);
            lemma_simple_poly_round_trip(pts);
            lemma_parse_poly_records(poly_le(pts, !fits16(pts)), pts, !fits16(pts));
        },
        RecordModel::Polypolyline { counts, pts } => {
            let wide = !fits16(pts);
            lemma_polypoly_bytes(counts, pts);
            lemma_polypoly_body(counts, pts, wide);
            if wide {
                lemma_words((6 + counts.len() + 2 * pts.len()) as int);
            } else {
                lemma_words((6 + counts.len() + pts.len()) as int);
            }
            lemma_parse_polypoly_records(polypoly_le(counts, pts, wide), counts, pts, wide);
        },
        RecordModel::Polypolygon { counts, pts } => {
            let wide = !fits16(pts);
            lemma_polypoly_bytes(counts, pts);
            lemma_polypoly_body(counts, pts, wide);
            if wide {
                lemma_words((6 + counts.len() + 2 * pts.len()) as int);
            } else {
                lemma_words((6 + counts.len() + pts.len()) as int);
            }
            lemma_parse_polypoly_records(polypoly_le(counts, pts, wide), counts, pts, wide);
        },
        RecordModel::PolyDraw { pts, types } => {
            let wide = !fits16(pts);
            lemma_polydraw_bytes(pts, types);
            lemma_polydraw_body(pts, types, wide);
            lemma_pad4_len(poly_le(pts, wide) + types);
            lemma_parse_polydraw_record(pad4(poly_le(pts, wide) + types), pts, types, wide);
        },
        _ => {},
    }
}


/// Records written as shape, arc and path-bracket frames.
pub open spec fn is_shape_model(r: RecordModel) -> bool {
    match r {
        RecordModel::LineTo(_) | RecordModel::AngleArc { .. } | RecordModel::Ellipse(_)
        | RecordModel::Rectangle(_) | RecordModel::RoundRect { .. } | RecordModel::Arc { .. }
        | RecordModel::ArcTo { .. } | RecordModel::Chord { .. } | RecordModel::Pie { .. }
        | RecordModel::BeginPath | RecordModel::EndPath | RecordModel::CloseFigure
        | RecordModel::AbortPath | RecordModel::FillPath(_) | RecordModel::StrokePath(_)
        | RecordModel::StrokeAndFillPath(_) => true,
        _ => false,
    }
}

proof fn lemma_rect_shape_bytes(rect: RectL)
    ensures
        spec_record_bytes(RecordModel::Ellipse(rect)) == (types::EMR_ELLIPSE, rect_le(rect)),
        spec_record_bytes(RecordModel::Rectangle(rect)) == (types::EMR_RECTANGLE, rect_le(rect)),
        spec_record_bytes(RecordModel::FillPath(rect)) == (types::EMR_FILLPATH, rect_le(rect)),
        spec_record_bytes(RecordModel::StrokePath(rect)) == (types::EMR_STROKEPATH, rect_le(rect)),
        spec_record_bytes(RecordModel::StrokeAndFillPath(rect)) == (
            types::EMR_STROKEANDFILLPATH,
            rect_le(rect),
        ),
{
    reveal(spec_record_bytes);
}

proof fn lemma_rect_shape_parse(rect: RectL)
    ensures
        spec_parse_record(types::EMR_ELLIPSE, rect_le(rect)) == Ok::<RecordModel, EmfError>(
            RecordModel::Ellipse(rect),
        ),
        spec_parse_record(types::EMR_RECTANGLE, rect_le(rect)) == Ok::<RecordModel, EmfError>(
            RecordModel::Rectangle(rect),
        ),
        spec_parse_record(types::EMR_FILLPATH, rect_le(rect)) == Ok::<RecordModel, EmfError>(
            RecordModel::FillPath(rect),
        ),
        spec_parse_record(types::EMR_STROKEPATH, rect_le(rect)) == Ok::<RecordModel, EmfError>(
            RecordModel::StrokePath(rect),
        ),
        spec_parse_record(types::EMR_STROKEANDFILLPATH, rect_le(rect)) == Ok::<
            RecordModel,
            EmfError,
        >(RecordModel::StrokeAndFillPath(rect)),
{
    reveal(spec_parse_record);
    reveal(spec_shape_record);
}

proof fn lemma_arc_bytes(rect: RectL, start: PointL, end: PointL)
    ensures
        spec_record_bytes(RecordModel::Arc { rect, start, end }) == (
            types::EMR_ARC,
            arc_le(rect, start, end),
        ),
        spec_record_bytes(RecordModel::ArcTo { rect, start, end }) == (
            types::EMR_ARCTO,
            arc_le(rect, start, end),
        ),
        spec_record_bytes(RecordModel::Chord { rect, start, end }) == (
            types::EMR_CHORD,
            arc_le(rect, start, end),
        ),
        spec_record_bytes(RecordModel::Pie { rect, start, end }) == (
            types::EMR_PIE,
            arc_le(rect, start, end),
        ),
{
    reveal(spec_record_bytes);
}

proof fn lemma_arc_parse(rect: RectL, start: PointL, end: PointL)
    ensures
        spec_parse_record(types::EMR_ARC, arc_le(rect, start, end)) == Ok::<RecordModel, EmfError>(
            RecordModel::Arc { rect, start, end },
        ),
        spec_parse_record(types::EMR_ARCTO, arc_le(rect, start, end)) == Ok::<
            RecordModel,
            EmfError,
        >(RecordModel::ArcTo { rect, start, end }),
        spec_parse_record(types::EMR_CHORD, arc_le(rect, start, end)) == Ok::<
            RecordModel,
            EmfError,
        >(RecordModel::Chord { rect, start, end }),
        spec_parse_record(types::EMR_PIE, arc_le(rect, start, end)) == Ok::<RecordModel, EmfError>(
            RecordModel::Pie { rect, start, end },
        ),
{
    reveal(spec_parse_record);
    reveal(spec_shape_record);
}

proof fn lemma_misc_shape_bytes(
    p: PointL,
    radius: u32,
    start_angle: u32,
    sweep_angle: u32,
    rect: RectL,
    corner: SizeL,
)
    ensures
        spec_record_bytes(RecordModel::LineTo(p)) == (types::EMR_LINETO, point_le(p)),
        spec_record_bytes(
            RecordModel::AngleArc { center: p, radius, start_angle, sweep_angle },
        ) == (
            types::EMR_ANGLEARC,
            point_le(p) + u32_le(radius) + u32_le(start_angle) + u32_le(sweep_angle),
        ),
        spec_record_bytes(RecordModel::RoundRect { rect, corner }) == (
            types::EMR_ROUNDRECT,
            rect_le(rect) + size_le(corner),
        ),
        spec_record_bytes(RecordModel::BeginPath) == (types::EMR_BEGINPATH, Seq::<u8>::empty()),
        spec_record_bytes(RecordModel::EndPath) == (types::EMR_ENDPATH, Seq::<u8>::empty()),
        spec_record_bytes(RecordModel::CloseFigure) == (types::EMR_CLOSEFIGURE, Seq::<u8>::empty()),
        spec_record_bytes(RecordModel::AbortPath) == (types::EMR_ABORTPATH, Seq::<u8>::empty()),
{
    reveal(spec_record_bytes);
}

proof fn lemma_misc_shape_parse(
    p: PointL,
    radius: u32,
    start_angle: u32,
    sweep_angle: u32,
    rect: RectL,
    corner: SizeL,
)
    ensures
        spec_parse_record(types::EMR_LINETO, point_le(p)) == Ok::<RecordModel, EmfError>(
            RecordModel::LineTo(p),
        ),
        spec_parse_record(
            types::EMR_ANGLEARC,
            point_le(p) + u32_le(radius) + u32_le(start_angle) + u32_le(sweep_angle),
        ) == Ok::<RecordModel, EmfError>(
            RecordModel::AngleArc { center: p, radius, start_angle, sweep_angle },
        ),
        spec_parse_record(types::EMR_ROUNDRECT, rect_le(rect) + size_le(corner)) == Ok::<
            RecordModel,
            EmfError,
        >(RecordModel::RoundRect { rect, corner }),
        spec_parse_record(types::EMR_BEGINPATH, Seq::<u8>::empty()) == Ok::<RecordModel, EmfError>(
            RecordModel::BeginPath,
        ),
        spec_parse_record(types::EMR_ENDPATH, Seq::<u8>::empty()) == Ok::<RecordModel, EmfError>(
            RecordModel::EndPath,
        ),
        spec_parse_record(types::EMR_CLOSEFIGURE, Seq::<u8>::empty()) == Ok::<
            RecordModel,
            EmfError,
        >(RecordModel::CloseFigure),
        spec_parse_record(types::EMR_ABORTPATH, Seq::<u8>::empty()) == Ok::<RecordModel, EmfError>(
            RecordModel::AbortPath,
        ),
{
    reveal(spec_parse_record);
    reveal(spec_shape_record);
}

proof fn lemma_shape_round_trip(r: RecordModel)
    requires
        is_shape_model(r),
    ensures
        spec_parse_record(spec_record_bytes(r).0, spec_record_bytes(r).1) == Ok::<RecordModel, EmfError>(r),
        spec_record_bytes(r).1.len() % 4 == 0,
{
    let o = PointL { x: 0, y: 0 };
    let z = RectL { left: 0, top: 0, right: 0, bottom: 0 };
    let c = SizeL { cx: 0, cy: 0 };
    match r {
        RecordModel::Ellipse(rect) | RecordModel::Rectangle(rect) | RecordModel::FillPath(rect)
        | RecordModel::StrokePath(rect) | RecordModel::StrokeAndFillPath(rect) => {
            lemma_rect_shape_bytes(rect);
            lemma_rect_shape_parse(rect);
        },
        RecordModel::Arc { rect, start, end } | RecordModel::ArcTo { rect, start, end }
        | RecordModel::Chord { rect, start, end } | RecordModel::Pie { rect, start, end } => {
            lemma_arc_bytes(rect, start, end);
            lemma_arc_parse(rect, start, end);
        },
        RecordModel::LineTo(p) => {
            lemma_misc_shape_bytes(p, 0, 0, 0, z, c);
            lemma_misc_shape_parse(p, 0, 0, 0, z, c);
        },
        RecordModel::AngleArc { center, radius, start_angle, sweep_angle } => {
            lemma_misc_shape_bytes(center, radius, start_angle, sweep_angle, z, c);
            lemma_misc_shape_parse(center, radius, start_angle, sweep_angle, z, c);
        },
        RecordModel::RoundRect { rect, corner } => {
            lemma_misc_shape_bytes(o, 0, 0, 0, rect, corner);
            lemma_misc_shape_parse(o, 0, 0, 0, rect, corner);
        },
        _ => {
            lemma_misc_shape_bytes(o, 0, 0, 0, z, c);
            lemma_misc_shape_parse(o, 0, 0, 0, z, c);
        },
    }
}


proof fn lemma_pad4_len(s: Seq<u8>)
    ensures
        pad4(s).len() % 4 == 0,
        pad4(s).len() >= s.len(),
        pad4(s).subrange(0, s.len() as int) == s,
{
    assert(pad4(s).subrange(0, s.len() as int) =~= s);
}

proof fn lemma_comment_round_trip(data: Seq<u8>)
    requires
        spec_record_bytes(RecordModel::Comment(data)).1.len() < 0x1_0000_0000,
    ensures
        spec_parse_record(
            spec_record_bytes(RecordModel::Comment(data)).0,
            spec_record_bytes(RecordModel::Comment(data)).1,
        ) == Ok::<RecordModel, EmfError>(RecordModel::Comment(data)),
        spec_record_bytes(RecordModel::Comment(data)).1.len() % 4 == 0,
{
    let w = u32_le(trunc32(data.len() as int));
    let b = pad4(w + data);
    assert(spec_record_bytes(RecordModel::Comment(data)) == (types::EMR_COMMENT, b)) by {
        reveal(spec_record_bytes);
    }
    lemma_pad4_len(w + data);
    lemma_trunc32_id(data.len() as int);
    let post = b.subrange((4 + data.len()) as int, b.len() as int);
    assert(b =~= w + data + post);
    lemma_read_u32(seq![], trunc32(data.len() as int), data + post);
    assert(b =~= seq![] + w + (data + post));
    assert(b.subrange(4, (4 + data.len()) as int) =~= data);
    reveal(spec_parse_record);
}

/// Whether a type number is one the reader gives a record of its own.
pub open spec fn is_modelled_type(itype: u32) -> bool {
    is_state_type(itype) || is_object_type(itype) || is_poly_type(itype) || is_shape_type(itype)
        || itype == types::EMR_COMMENT
}

proof fn lemma_unknown_round_trip(itype: u32, data: Seq<u8>)
    requires
        !is_modelled_type(itype),
    ensures
        spec_parse_record(
            spec_record_bytes(RecordModel::Unknown { itype, data }).0,
            spec_record_bytes(RecordModel::Unknown { itype, data }).1,
        ) == Ok::<RecordModel, EmfError>(RecordModel::Unknown { itype, data }),
        spec_record_bytes(RecordModel::Unknown { itype, data }).1 == data,
{
    assert(spec_record_bytes(RecordModel::Unknown { itype, data }) == (itype, data)) by {
        reveal(spec_record_bytes);
    }
    reveal(spec_parse_record);
}


/// Whether the frame the writer emits for `r` reads back as `r`: it is not
/// a header record, its length fits the 32-bit size field, the polygon
/// counts of a poly-polygon add up to its point count, a PolyDraw has one
/// type byte per point, and a record kept verbatim has a type the reader
/// does not interpret and a payload of whole 32-bit words.
pub open spec fn frame_round_trips(r: RecordModel) -> bool {
    &&& !(r is Header)
    &&& frame_le(r).len() <= u32::MAX
    &&& match r {
        RecordModel::Polypolyline { counts, pts } => seq_sum(counts) == pts.len(),
        RecordModel::Polypolygon { counts, pts } => seq_sum(counts) == pts.len(),
        RecordModel::PolyDraw { pts, types } => types.len() == pts.len(),
        RecordModel::Unknown { itype, data } => !is_modelled_type(itype) && data.len() % 4 == 0,
        _ => true,
    }
}

/// A record the writer frames is read back as the same record, from a
/// payload of whole 32-bit words.
pub proof fn lemma_record_round_trip(r: RecordModel)
    requires
        frame_round_trips(r),
    ensures
        spec_parse_record(spec_record_bytes(r).0, spec_record_bytes(r).1) == Ok::<RecordModel, EmfError>(r),
        spec_record_bytes(r).1.len() % 4 == 0,
{
    if is_state_model(r) {
        lemma_state_round_trip(r);
    } else if is_object_model(r) {
        lemma_object_round_trip(r);
    } else if is_poly_model(r) {
        lemma_poly_round_trip(r);
    } else if is_shape_model(r) {
        lemma_shape_round_trip(r);
    } else {
        match r {
            RecordModel::Comment(data) => lemma_comment_round_trip(data),
            RecordModel::Unknown { itype, data } => lemma_unknown_round_trip(itype, data),
            _ => {},
        }
    }
}


proof fn lemma_frame_round_trip(pre: Seq<u8>, r: RecordModel, post: Seq<u8>)
    requires
        frame_round_trips(r),
    ensures
        spec_frame(pre + frame_le(r) + post, pre.len() as int) == Ok::<(RecordModel, int), EmfError>(
            (r, frame_le(r).len() as int),
        ),
        frame_le(r).len() >= 8,
{
    lemma_record_round_trip(r);
    let t = spec_record_bytes(r).0;
    let b = spec_record_bytes(r).1;
    let n = 8 + b.len();
    let data = pre + frame_le(r) + post;
    let off = pre.len() as int;
    lemma_trunc32_id(n as int);
    assert(frame_le(r) == u32_le(t) + u32_le(n as u32) + b);
    assert(u32_at(data, off) == t) by {
        lemma_read_u32(pre, t, u32_le(n as u32) + b + post);
        assert(data =~= pre + u32_le(t) + (u32_le(n as u32) + b + post));
    }
    assert(u32_at(data, off + 4) == n) by {
        lemma_read_u32(pre + u32_le(t), n as u32, b + post);
        assert(data =~= (pre + u32_le(t)) + u32_le(n as u32) + (b + post));
    }
    assert(data.subrange(off + 8, off + n) =~= b);
}


proof fn lemma_frames_cons(r: RecordModel, rest: Seq<RecordModel>)
    ensures
        frames_le(seq![r] + rest) == frame_le(r) + frames_le(rest),
    decreases rest.len(),
{
    let s = seq![r] + rest;
    if rest.len() == 0 {
        assert(s.drop_last() =~= rest);
        assert(frames_le(rest) =~= Seq::<u8>::empty());
        assert(s.last() == r);
        assert(frames_le(s) =~= frame_le(r) + frames_le(rest));
    } else {
        lemma_frames_cons(r, rest.drop_last());
        assert(s.drop_last() =~= seq![r] + rest.drop_last());
        assert(s.last() == rest.last());
        assert(frames_le(s) =~= frame_le(r) + frames_le(rest));
    }
}

/// Whether a record list is one the writer emits and the reader reads back:
/// it ends with EMR_EOF, holds no earlier EMR_EOF, and every frame round-trips.
pub open spec fn stream_round_trips(rs: Seq<RecordModel>) -> bool {
    &&& rs.len() >= 1
    &&& rs.last() is Eof
    &&& forall|i: int| 0 <= i < rs.len() - 1 ==> !(#[trigger] rs[i] is Eof)
    &&& forall|i: int| 0 <= i < rs.len() ==> frame_round_trips(#[trigger] rs[i])
}

proof fn lemma_frames_round_trip(pre: Seq<u8>, rs: Seq<RecordModel>, post: Seq<u8>)
    requires
        stream_round_trips(rs),
    ensures
        spec_frames(pre + frames_le(rs) + post, pre.len() as int) == Ok::<Seq<RecordModel>, EmfError>(rs),
    decreases rs.len(),
{
    let r0 = rs[0];
    let rest = rs.subrange(1, rs.len() as int);
    assert(rs =~= seq![r0] + rest);
    lemma_frames_cons(r0, rest);
    let data = pre + frames_le(rs) + post;
    assert(data =~= pre + frame_le(r0) + (frames_le(rest) + post));
    assert(frame_round_trips(rs[0]));
    lemma_frame_round_trip(pre, r0, frames_le(rest) + post);
    let n0 = frame_le(r0).len() as int;
    if r0 is Eof {
        assert(rs.len() == 1);
        assert(rs =~= seq![r0]);
    } else {
        assert(rs.len() > 1);
        assert forall|i: int| 0 <= i < rest.len() - 1 implies !(#[trigger] rest[i] is Eof) by {
            assert(rest[i] == rs[i + 1]);
        }
        assert forall|i: int| 0 <= i < rest.len() implies frame_round_trips(#[trigger] rest[i]) by {
            assert(rest[i] == rs[i + 1]);
        }
        assert(rest.last() == rs.last());
        lemma_frames_round_trip(pre + frame_le(r0), rest, post);
        assert(data =~= (pre + frame_le(r0)) + frames_le(rest) + post);
        assert(chain(seq![r0], Ok::<Seq<RecordModel>, EmfError>(rest)) == Ok::<Seq<RecordModel>, EmfError>(rs));
    }
}


proof fn lemma_header_round_trip(h: EmfHeader, nb: u32, nr: u32)
    ensures
        header_le(h, nb, nr).len() == 88,
        u32_at(header_le(h, nb, nr), 0) == types::EMR_HEADER,
        u32_at(header_le(h, nb, nr), 4) == 88,
        spec_parse_header(header_le(h, nb, nr).subrange(8, 88)) == Ok::<EmfHeader, EmfError>(
            EmfHeader { n_bytes: nb, n_records: nr, ..h },
        ),
{
    let b = header_le(h, nb, nr);
    let p = b.subrange(8, 88);
    let pre = header_pre(h);
    let post = header_post(h);
    assert(pre.len() == 48);
    assert(post.len() == 32);
    assert(p =~= rect_le(h.bounds) + rect_le(h.frame) + u32_le(types::ENHMETA_SIGNATURE) + u32_le(
        0x0001_0000,
    ) + u32_le(nb) + u32_le(nr) + post);
}

/// Writing a header and a record stream and parsing the bytes back gives
/// the same header, with its byte and record counts set to those of the
/// written file, and the same records.
pub proof fn lemma_write_then_parse(h: EmfHeader, rs: Seq<RecordModel>)
    requires
        stream_round_trips(rs),
    ensures
        spec_parse_file(spec_write_emf(h, rs)) == Ok::<EmfFileModel, EmfError>(
            EmfFileModel {
                header: EmfHeader {
                    n_bytes: trunc32(spec_write_emf(h, rs).len() as int),
                    n_records: trunc32(rs.len() + 1 as int),
                    ..h
                },
                records: rs,
            },
        ),
{
    let body = frames_le(rs);
    let nb = trunc32(88 + body.len() as int);
    let nr = trunc32(rs.len() + 1 as int);
    let hb = header_le(h, nb, nr);
    let data = spec_write_emf(h, rs);
    assert(data == hb + body);
    lemma_header_round_trip(h, nb, nr);
    assert(data.subrange(8, 88) =~= hb.subrange(8, 88));
    assert(u32_at(data, 0) == u32_at(hb, 0));
    assert(u32_at(data, 4) == u32_at(hb, 4));
    lemma_frames_round_trip(hb, rs, seq![]);
    assert(data =~= hb + body + seq![]);
}

/// A header and one record followed by EOF, written and parsed back, give
/// that record and EOF and the header's bounds, for every record the writer
/// frames whole (see `frame_round_trips`).
/// One record followed by EOF is a stream the writer frames whole.
proof fn lemma_pair_stream(r: RecordModel)
    requires
        frame_round_trips(r),
        !(r is Eof),
    ensures
        stream_round_trips(seq![r, RecordModel::Eof]),
{
    reveal(spec_record_bytes);
    let rs = seq![r, RecordModel::Eof];
    assert(spec_record_bytes(RecordModel::Eof).1.len() == 12);
    assert(frame_round_trips(rs[1]));
    assert forall|i: int| 0 <= i < rs.len() implies frame_round_trips(#[trigger] rs[i]) by {
        if i == 0 {
            assert(rs[i] == r);
        }
    }
}

/// A header and one record followed by EOF, written and parsed back, give
/// that record and EOF and the header's bounds, for every record the writer
/// frames whole (see `frame_round_trips`).
pub proof fn lemma_single_record_round_trip(h: EmfHeader, r: RecordModel)
    requires
        frame_round_trips(r),
        !(r is Eof),
    ensures
        spec_parse_file(spec_write_emf(h, seq![r, RecordModel::Eof])) matches Ok(f) && f.records
            == seq![r, RecordModel::Eof] && f.header.bounds == h.bounds,
{
    lemma_pair_stream(r);
    lemma_write_then_parse(h, seq![r, RecordModel::Eof]);
}

} // verus!
