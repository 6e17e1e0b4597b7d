//! EMF binary writer: serializes records and back-fills the header
//! (nBytes / nRecords) once the stream is complete.

use vstd::prelude::*;
use crate::records::{records_view, EmfHeader, EmfRecord, RecordModel};
use crate::types;
use crate::types::{ColorRef, PointL, RectL, SizeL, Xform};
use crate::wire::{
    i32_le, len_u32, pad4, pad_to_4, push_bytes, push_i32, push_u16, push_u32, trunc32, u16_le,
    u32_le,
};

verus! {

// ---------------------------------------------------------------------------
// Encoding
// ---------------------------------------------------------------------------

pub open spec fn point_le(p: PointL) -> Seq<u8> {
    i32_le(p.x) + i32_le(p.y)
}

pub open spec fn size_le(s: SizeL) -> Seq<u8> {
    i32_le(s.cx) + i32_le(s.cy)
}

pub open spec fn rect_le(r: RectL) -> Seq<u8> {
    i32_le(r.left) + i32_le(r.top) + i32_le(r.right) + i32_le(r.bottom)
}

pub open spec fn xform_le(x: Xform) -> Seq<u8> {
    u32_le(x.m11) + u32_le(x.m12) + u32_le(x.m21) + u32_le(x.m22) + u32_le(x.dx) + u32_le(x.dy)
}

/// COLORREF: red, green, blue, a zero reserved byte.
pub open spec fn color_le(c: ColorRef) -> Seq<u8> {
    seq![c.r, c.g, c.b, 0u8]
}

pub open spec fn points_le(pts: Seq<PointL>) -> Seq<u8>
    decreases pts.len(),
{
    if pts.len() == 0 {
        seq![]
    } else {
        points_le(pts.drop_last()) + point_le(pts.last())
    }
}

/// POINTS: a point as two little-endian 16-bit values.
pub open spec fn point16_le(p: PointL) -> Seq<u8> {
    u16_le(p.x as u16) + u16_le(p.y as u16)
}

pub open spec fn points16_le(pts: Seq<PointL>) -> Seq<u8>
    decreases pts.len(),
{
    if pts.len() == 0 {
        seq![]
    } else {
        points16_le(pts.drop_last()) + point16_le(pts.last())
    }
}

/// Every coordinate fits in 16 bits, so the compact record form can carry
/// the points.
pub open spec fn fits16(pts: Seq<PointL>) -> bool {
    forall|i: int|
        0 <= i < pts.len() ==> -32768 <= #[trigger] pts[i].x <= 32767 && -32768 <= pts[i].y
            <= 32767
}

/// Points, 32-bit (`wide`) or 16-bit.
pub open spec fn points_w_le(pts: Seq<PointL>, wide: bool) -> Seq<u8> {
    if wide {
        points_le(pts)
    } else {
        points16_le(pts)
    }
}

pub open spec fn u32s_le(vs: Seq<u32>) -> Seq<u8>
    decreases vs.len(),
{
    if vs.len() == 0 {
        seq![]
    } else {
        u32s_le(vs.drop_last()) + u32_le(vs.last())
    }
}

pub open spec fn min_i32(a: i32, b: i32) -> i32 {
    if a <= b {
        a
    } else {
        b
    }
}

pub open spec fn max_i32(a: i32, b: i32) -> i32 {
    if a >= b {
        a
    } else {
        b
    }
}

/// Running min/max of the coordinates, starting from the empty box
/// (MAX, MAX, MIN, MIN).
pub open spec fn bounds_fold(pts: Seq<PointL>) -> RectL
    decreases pts.len(),
{
    if pts.len() == 0 {
        RectL { left: i32::MAX, top: i32::MAX, right: i32::MIN, bottom: i32::MIN }
    } else {
        let r = bounds_fold(pts.drop_last());
        let p = pts.last();
        RectL {
            left: min_i32(r.left, p.x),
            top: min_i32(r.top, p.y),
            right: max_i32(r.right, p.x),
            bottom: max_i32(r.bottom, p.y),
        }
    }
}

/// Bounding box of the points; the zero rectangle for no points.
pub open spec fn spec_point_bounds(pts: Seq<PointL>) -> RectL {
    if pts.len() == 0 {
        RectL { left: 0, top: 0, right: 0, bottom: 0 }
    } else {
        bounds_fold(pts)
    }
}

/// Poly body: bounds, count, points (32-bit when `wide`, else 16-bit).
pub open spec fn poly_le(pts: Seq<PointL>, wide: bool) -> Seq<u8> {
    rect_le(spec_point_bounds(pts)) + u32_le(trunc32(pts.len() as int)) + points_w_le(pts, wide)
}

/// PolyPoly body: bounds, polygon count, point count, counts, points.
pub open spec fn polypoly_le(counts: Seq<u32>, pts: Seq<PointL>, wide: bool) -> Seq<u8> {
    rect_le(spec_point_bounds(pts)) + u32_le(trunc32(counts.len() as int)) + u32_le(
        trunc32(pts.len() as int),
    ) + u32s_le(counts) + points_w_le(pts, wide)
}

/// The record type of a point list: the compact 16-bit type when every
/// coordinate fits, the 32-bit type otherwise.
pub open spec fn poly_type(pts: Seq<PointL>, t32: u32, t16: u32) -> u32 {
    if fits16(pts) {
        t16
    } else {
        t32
    }
}

pub open spec fn arc_le(rect: RectL, start: PointL, end: PointL) -> Seq<u8> {
    rect_le(rect) + point_le(start) + point_le(end)
}

/// The type number and payload a record is written as.
#[verifier::opaque]
pub open spec fn spec_record_bytes(r: RecordModel) -> (u32, Seq<u8>) {
    match r {
        RecordModel::Header(_) => (types::EMR_HEADER, seq![]),
        RecordModel::Eof => (types::EMR_EOF, u32_le(0) + u32_le(16) + u32_le(20)),
        RecordModel::SetMapMode(v) => (types::EMR_SETMAPMODE, u32_le(v)),
        RecordModel::SetWindowExtEx(s) => (types::EMR_SETWINDOWEXTEX, size_le(s)),
        RecordModel::SetWindowOrgEx(p) => (types::EMR_SETWINDOWORGEX, point_le(p)),
        RecordModel::SetViewportExtEx(s) => (types::EMR_SETVIEWPORTEXTEX, size_le(s)),
        RecordModel::SetViewportOrgEx(p) => (types::EMR_SETVIEWPORTORGEX, point_le(p)),
        RecordModel::SetPolyfillMode(v) => (types::EMR_SETPOLYFILLMODE, u32_le(v)),
        RecordModel::SetMiterLimit(v) => (types::EMR_SETMITERLIMIT, u32_le(v)),
        RecordModel::SetArcDirection(v) => (types::EMR_SETARCDIRECTION, u32_le(v)),
        RecordModel::MoveToEx(p) => (types::EMR_MOVETOEX, point_le(p)),
        RecordModel::SaveDc => (types::EMR_SAVEDC, seq![]),
        RecordModel::RestoreDc(v) => (types::EMR_RESTOREDC, i32_le(v)),
        RecordModel::SetWorldTransform(x) => (types::EMR_SETWORLDTRANSFORM, xform_le(x)),
        RecordModel::ModifyWorldTransform { xform, mode } => (
            types::EMR_MODIFYWORLDTRANSFORM,
            xform_le(xform) + u32_le(mode),
        ),
        RecordModel::CreatePen { ih, style, width, color } => (
            types::EMR_CREATEPEN,
            u32_le(ih) + u32_le(style) + point_le(PointL { x: width, y: 0 }) + color_le(color),
        ),
        RecordModel::ExtCreatePen {
            ih,
            style,
            width,
            brush_style,
            color,
            hatch,
            style_entries,
        } => (
            types::EMR_EXTCREATEPEN,
            u32_le(ih) + u32_le(0) + u32_le(0) + u32_le(0) + u32_le(0) + u32_le(style) + u32_le(
                width,
            ) + u32_le(brush_style) + color_le(color) + u32_le(hatch) + u32_le(
                trunc32(style_entries.len() as int),
            ) + u32s_le(style_entries),
        ),
        RecordModel::CreateBrushIndirect { ih, style, color, hatch } => (
            types::EMR_CREATEBRUSHINDIRECT,
            u32_le(ih) + u32_le(style) + color_le(color) + u32_le(hatch),
        ),
        RecordModel::SelectObject(v) => (types::EMR_SELECTOBJECT, u32_le(v)),
        RecordModel::DeleteObject(v) => (types::EMR_DELETEOBJECT, u32_le(v)),
        RecordModel::Polybezier(pts) => (
            poly_type(pts, types::EMR_POLYBEZIER, types::EMR_POLYBEZIER16),
            poly_le(pts, !fits16(pts)),
        ),
        RecordModel::Polygon(pts) => (
            poly_type(pts, types::EMR_POLYGON, types::EMR_POLYGON16),
            poly_le(pts, !fits16(pts)),
        ),
        RecordModel::Polyline(pts) => (
            poly_type(pts, types::EMR_POLYLINE, types::EMR_POLYLINE16),
            poly_le(pts, !fits16(pts)),
        ),
        RecordModel::PolybezierTo(pts) => (
            poly_type(pts, types::EMR_POLYBEZIERTO, types::EMR_POLYBEZIERTO16),
            poly_le(pts, !fits16(pts)),
        ),
        RecordModel::PolylineTo(pts) => (
            poly_type(pts, types::EMR_POLYLINETO, types::EMR_POLYLINETO16),
            poly_le(pts, !fits16(pts)),
        ),
        RecordModel::Polypolyline { counts, pts } => (
            poly_type(pts, types::EMR_POLYPOLYLINE, types::EMR_POLYPOLYLINE16),
            polypoly_le(counts, pts, !fits16(pts)),
        ),
        RecordModel::Polypolygon { counts, pts } => (
            poly_type(pts, types::EMR_POLYPOLYGON, types::EMR_POLYPOLYGON16),
            polypoly_le(counts, pts, !fits16(pts)),
        ),
        RecordModel::PolyDraw { pts, types } => (
            poly_type(pts, types::EMR_POLYDRAW, types::EMR_POLYDRAW16),
            pad4(poly_le(pts, !fits16(pts)) + types),
        ),
        RecordModel::LineTo(p) => (types::EMR_LINETO, point_le(p)),
        RecordModel::AngleArc { center, radius, start_angle, sweep_angle } => (
            types::EMR_ANGLEARC,
            point_le(center) + u32_le(radius) + u32_le(start_angle) + u32_le(sweep_angle),
        ),
        RecordModel::Ellipse(r) => (types::EMR_ELLIPSE, rect_le(r)),
        RecordModel::Rectangle(r) => (types::EMR_RECTANGLE, rect_le(r)),
        RecordModel::RoundRect { rect, corner } => (
            types::EMR_ROUNDRECT,
            rect_le(rect) + size_le(corner),
        ),
        RecordModel::Arc { rect, start, end } => (types::EMR_ARC, arc_le(rect, start, end)),
        RecordModel::ArcTo { rect, start, end } => (types::EMR_ARCTO, arc_le(rect, start, end)),
        RecordModel::Chord { rect, start, end } => (types::EMR_CHORD, arc_le(rect, start, end)),
        RecordModel::Pie { rect, start, end } => (types::EMR_PIE, arc_le(rect, start, end)),
        RecordModel::BeginPath => (types::EMR_BEGINPATH, seq![]),
        RecordModel::EndPath => (types::EMR_ENDPATH, seq![]),
        RecordModel::CloseFigure => (types::EMR_CLOSEFIGURE, seq![]),
        RecordModel::AbortPath => (types::EMR_ABORTPATH, seq![]),
        RecordModel::FillPath(r) => (types::EMR_FILLPATH, rect_le(r)),
        RecordModel::StrokePath(r) => (types::EMR_STROKEPATH, rect_le(r)),
        RecordModel::StrokeAndFillPath(r) => (types::EMR_STROKEANDFILLPATH, rect_le(r)),
        RecordModel::Comment(data) => (
            types::EMR_COMMENT,
            pad4(u32_le(trunc32(data.len() as int)) + data),
        ),
        RecordModel::Unknown { itype, data } => (itype, data),
    }
}

/// One record frame: type, total size (header included, low 32 bits), payload.
pub open spec fn frame_le(r: RecordModel) -> Seq<u8> {
    let (t, b) = spec_record_bytes(r);
    u32_le(t) + u32_le(trunc32(8 + b.len() as int)) + b
}

pub open spec fn frames_le(rs: Seq<RecordModel>) -> Seq<u8>
    decreases rs.len(),
{
    if rs.len() == 0 {
        seq![]
    } else {
        frames_le(rs.drop_last()) + frame_le(rs.last())
    }
}

/// The first 48 bytes of the header record: frame, bounds, frame
/// rectangle, signature, version.
pub open spec fn header_pre(h: EmfHeader) -> Seq<u8> {
    u32_le(types::EMR_HEADER) + u32_le(88) + rect_le(h.bounds) + rect_le(h.frame) + u32_le(
        types::ENHMETA_SIGNATURE,
    ) + u32_le(0x0001_0000)
}

/// The last 32 bytes of the header record: handle count, reserved,
/// description and palette fields, reference device.
pub open spec fn header_post(h: EmfHeader) -> Seq<u8> {
    u16_le(h.n_handles) + u16_le(0) + u32_le(0) + u32_le(0) + u32_le(0) + size_le(h.device)
        + size_le(h.millimeters)
}

/// The 88-byte header record with the given byte and record counts.
pub open spec fn header_le(h: EmfHeader, n_bytes: u32, n_records: u32) -> Seq<u8> {
    header_pre(h) + u32_le(n_bytes) + u32_le(n_records) + header_post(h)
}

/// A complete file: the header (whose nBytes is the total length and
/// nRecords the record count, header included, both to 32 bits), then the
/// record frames.
pub open spec fn spec_write_emf(h: EmfHeader, rs: Seq<RecordModel>) -> Seq<u8> {
    let body = frames_le(rs);
    header_le(h, trunc32(88 + body.len() as int), trunc32(rs.len() + 1 as int)) + body
}

} // verus!

verus! {

// ---------------------------------------------------------------------------
// Serialization
// ---------------------------------------------------------------------------

/// Byte buffer with little-endian push helpers.
struct Buf(Vec<u8>);

impl Buf {
    fn u32(&mut self, v: u32)
        ensures
            final(self).0@ == old(self).0@ + u32_le(v),
    {
        push_u32(&mut self.0, v);
    }

    fn i32(&mut self, v: i32)
        ensures
            final(self).0@ == old(self).0@ + i32_le(v),
    {
        push_i32(&mut self.0, v);
    }

    /// A single-precision field given by its bit pattern.
    fn f32_bits(&mut self, v: u32)
        ensures
            final(self).0@ == old(self).0@ + u32_le(v),
    {
        push_u32(&mut self.0, v);
    }

    fn u16(&mut self, v: u16)
        ensures
            final(self).0@ == old(self).0@ + u16_le(v),
    {
        push_u16(&mut self.0, v);
    }

    fn point_l(&mut self, p: PointL)
        ensures
            final(self).0@ == old(self).0@ + point_le(p),
    {
        self.i32(p.x);
        self.i32(p.y);
        assert(self.0@ =~= old(self).0@ + point_le(p));
    }

    fn size_l(&mut self, s: SizeL)
        ensures
            final(self).0@ == old(self).0@ + size_le(s),
    {
        self.i32(s.cx);
        self.i32(s.cy);
        assert(self.0@ =~= old(self).0@ + size_le(s));
    }

    fn rect_l(&mut self, r: RectL)
        ensures
            final(self).0@ == old(self).0@ + rect_le(r),
    {
        self.i32(r.left);
        self.i32(r.top);
        self.i32(r.right);
        self.i32(r.bottom);
        assert(self.0@ =~= old(self).0@ + rect_le(r));
    }

    fn xform(&mut self, x: Xform)
        ensures
            final(self).0@ == old(self).0@ + xform_le(x),
    {
        self.f32_bits(x.m11);
        self.f32_bits(x.m12);
        self.f32_bits(x.m21);
        self.f32_bits(x.m22);
        self.f32_bits(x.dx);
        self.f32_bits(x.dy);
        assert(self.0@ =~= old(self).0@ + xform_le(x));
    }

    fn color(&mut self, c: ColorRef)
        ensures
            final(self).0@ == old(self).0@ + color_le(c),
    {
        self.0.push(c.r);
        self.0.push(c.g);
        self.0.push(c.b);
        self.0.push(0);
        assert(self.0@ =~= old(self).0@ + color_le(c));
    }

    fn points(&mut self, pts: &[PointL])
        ensures
            final(self).0@ == old(self).0@ + points_le(pts@),
    {
        let ghost start = self.0@;
        let mut i: usize = 0;
        while i < pts.len()
            invariant
                i <= pts@.len(),
                self.0@ == start + points_le(pts@.subrange(0, i as int)),
            decreases pts@.len() - i,
        {
            assert(pts@.subrange(0, i + 1).drop_last() =~= pts@.subrange(0, i as int));
            self.point_l(pts[i]);
            i = i + 1;
            assert(self.0@ =~= start + points_le(pts@.subrange(0, i as int)));
        }
        assert(pts@.subrange(0, pts@.len() as int) =~= pts@);
    }

    fn point16(&mut self, p: PointL)
        ensures
            final(self).0@ == old(self).0@ + point16_le(p),
    {
        self.u16(p.x as u16);
        self.u16(p.y as u16);
        assert(self.0@ =~= old(self).0@ + point16_le(p));
    }

    fn points16(&mut self, pts: &[PointL])
        ensures
            final(self).0@ == old(self).0@ + points16_le(pts@),
    {
        let ghost start = self.0@;
        let mut i: usize = 0;
        while i < pts.len()
            invariant
                i <= pts@.len(),
                self.0@ == start + points16_le(pts@.subrange(0, i as int)),
            decreases pts@.len() - i,
        {
            assert(pts@.subrange(0, i + 1).drop_last() =~= pts@.subrange(0, i as int));
            self.point16(pts[i]);
            i = i + 1;
            assert(self.0@ =~= start + points16_le(pts@.subrange(0, i as int)));
        }
        assert(pts@.subrange(0, pts@.len() as int) =~= pts@);
    }

    /// Points in the given width.
    fn points_w(&mut self, pts: &[PointL], wide: bool)
        ensures
            final(self).0@ == old(self).0@ + points_w_le(pts@, wide),
    {
        if wide {
            self.points(pts);
        } else {
            self.points16(pts);
        }
    }

    fn u32s(&mut self, vs: &[u32])
        ensures
            final(self).0@ == old(self).0@ + u32s_le(vs@),
    {
        let ghost start = self.0@;
        let mut i: usize = 0;
        while i < vs.len()
            invariant
                i <= vs@.len(),
                self.0@ == start + u32s_le(vs@.subrange(0, i as int)),
            decreases vs@.len() - i,
        {
            assert(vs@.subrange(0, i + 1).drop_last() =~= vs@.subrange(0, i as int));
            self.u32(vs[i]);
            i = i + 1;
            assert(self.0@ =~= start + u32s_le(vs@.subrange(0, i as int)));
        }
        assert(vs@.subrange(0, vs@.len() as int) =~= vs@);
    }
}

fn point_bounds(pts: &[PointL]) -> (r: RectL)
    ensures
        r == spec_point_bounds(pts@),
{
    let mut r = RectL::new(i32::MAX, i32::MAX, i32::MIN, i32::MIN);
    let mut i: usize = 0;
    while i < pts.len()
        invariant
            i <= pts@.len(),
            r == bounds_fold(pts@.subrange(0, i as int)),
        decreases pts@.len() - i,
    {
        assert(pts@.subrange(0, i + 1).drop_last() =~= pts@.subrange(0, i as int));
        let p = pts[i];
        if p.x < r.left {
            r.left = p.x;
        }
        if p.y < r.top {
            r.top = p.y;
        }
        if p.x > r.right {
            r.right = p.x;
        }
        if p.y > r.bottom {
            r.bottom = p.y;
        }
        i = i + 1;
    }
    assert(pts@.subrange(0, pts@.len() as int) =~= pts@);
    if pts.len() == 0 {
        RectL::new(0, 0, 0, 0)
    } else {
        r
    }
}

/// Whether every coordinate fits in 16 bits.
fn fits_16(pts: &[PointL]) -> (r: bool)
    ensures
        r == fits16(pts@),
{
    let mut i: usize = 0;
    while i < pts.len()
        invariant
            i <= pts@.len(),
            forall|k: int|
                0 <= k < i ==> -32768 <= #[trigger] pts@[k].x <= 32767 && -32768 <= pts@[k].y
                    <= 32767,
        decreases pts@.len() - i,
    {
        let p = pts[i];
        if p.x < -32768 || p.x > 32767 || p.y < -32768 || p.y > 32767 {
            return false;
        }
        i = i + 1;
    }
    true
}

fn poly_body(b: &mut Buf, pts: &[PointL], t32: u32, t16: u32) -> (t: u32)
    ensures
        t == poly_type(pts@, t32, t16),
        final(b).0@ == old(b).0@ + poly_le(pts@, !fits16(pts@)),
{
    let narrow = fits_16(pts);
    b.rect_l(point_bounds(pts));
    b.u32(len_u32(pts.len()));
    b.points_w(pts, !narrow);
    assert(b.0@ =~= old(b).0@ + poly_le(pts@, !fits16(pts@)));
    if narrow {
        t16
    } else {
        t32
    }
}

fn polypoly_body(b: &mut Buf, counts: &[u32], pts: &[PointL], t32: u32, t16: u32) -> (t: u32)
    ensures
        t == poly_type(pts@, t32, t16),
        final(b).0@ == old(b).0@ + polypoly_le(counts@, pts@, !fits16(pts@)),
{
    let narrow = fits_16(pts);
    b.rect_l(point_bounds(pts));
    b.u32(len_u32(counts.len()));
    b.u32(len_u32(pts.len()));
    b.u32s(counts);
    b.points_w(pts, !narrow);
    assert(b.0@ =~= old(b).0@ + polypoly_le(counts@, pts@, !fits16(pts@)));
    if narrow {
        t16
    } else {
        t32
    }
}

fn arc_body(b: &mut Buf, rect: &RectL, start: &PointL, end: &PointL, itype: u32) -> (t: u32)
    ensures
        t == itype,
        final(b).0@ == old(b).0@ + arc_le(*rect, *start, *end),
{
    b.rect_l(*rect);
    b.point_l(*start);
    b.point_l(*end);
    assert(b.0@ =~= old(b).0@ + arc_le(*rect, *start, *end));
    itype
}

} // verus!

verus! {

/// Serialize one record (excluding the header record) to its type and payload.
#[verifier::spinoff_prover]
#[verifier::rlimit(40)]
fn record_bytes(rec: &EmfRecord) -> (r: (u32, Vec<u8>))
    requires
        !(rec@ is Header),
    ensures
        r.0 == spec_record_bytes(rec@).0,
        r.1@ == spec_record_bytes(rec@).1,
{
    reveal(spec_record_bytes);
    let mut b = Buf(Vec::new());
    let itype = match rec {
        EmfRecord::Header(_) => types::EMR_HEADER,
        EmfRecord::Eof => {
            b.u32(0);  // nPalEntries
            b.u32(16);  // offPalEntries
            b.u32(20);  // nSizeLast (total EOF record size)
            types::EMR_EOF
        },
        EmfRecord::SetMapMode(v) => {
            b.u32(*v);
            types::EMR_SETMAPMODE
        },
        EmfRecord::SetWindowExtEx(s) => {
            b.size_l(*s);
            types::EMR_SETWINDOWEXTEX
        },
        EmfRecord::SetWindowOrgEx(p) => {
            b.point_l(*p);
            types::EMR_SETWINDOWORGEX
        },
        EmfRecord::SetViewportExtEx(s) => {
            b.size_l(*s);
            types::EMR_SETVIEWPORTEXTEX
        },
        EmfRecord::SetViewportOrgEx(p) => {
            b.point_l(*p);
            types::EMR_SETVIEWPORTORGEX
        },
        EmfRecord::SetPolyfillMode(v) => {
            b.u32(*v);
            types::EMR_SETPOLYFILLMODE
        },
        EmfRecord::SetMiterLimit(v) => {
            b.f32_bits(*v);
            types::EMR_SETMITERLIMIT
        },
        EmfRecord::SetArcDirection(v) => {
            b.u32(*v);
            types::EMR_SETARCDIRECTION
        },
        EmfRecord::MoveToEx(p) => {
            b.point_l(*p);
            types::EMR_MOVETOEX
        },
        EmfRecord::SaveDc => types::EMR_SAVEDC,
        EmfRecord::RestoreDc(v) => {
            b.i32(*v);
            types::EMR_RESTOREDC
        },
        EmfRecord::SetWorldTransform(x) => {
            b.xform(*x);
            types::EMR_SETWORLDTRANSFORM
        },
        EmfRecord::ModifyWorldTransform { xform, mode } => {
            b.xform(*xform);
            b.u32(*mode);
            types::EMR_MODIFYWORLDTRANSFORM
        },
        EmfRecord::CreatePen { ih, style, width, color } => {
            b.u32(*ih);
            b.u32(*style);
            b.point_l(PointL::new(*width, 0));
            b.color(*color);
            types::EMR_CREATEPEN
        },
        EmfRecord::ExtCreatePen {
            ih,
            style,
            width,
            brush_style,
            color,
            hatch,
            style_entries,
        } => {
            b.u32(*ih);
            b.u32(0);  // offBmi
            b.u32(0);  // cbBmi
            b.u32(0);  // offBits
            b.u32(0);  // cbBits
            b.u32(*style);
            b.u32(*width);
            b.u32(*brush_style);
            b.color(*color);
            b.u32(*hatch);
            b.u32(len_u32(style_entries.len()));
            b.u32s(style_entries.as_slice());
            types::EMR_EXTCREATEPEN
        },
        EmfRecord::CreateBrushIndirect { ih, style, color, hatch } => {
            b.u32(*ih);
            b.u32(*style);
            b.color(*color);
            b.u32(*hatch);
            types::EMR_CREATEBRUSHINDIRECT
        },
        EmfRecord::SelectObject(ih) => {
            b.u32(*ih);
            types::EMR_SELECTOBJECT
        },
        EmfRecord::DeleteObject(ih) => {
            b.u32(*ih);
            types::EMR_DELETEOBJECT
        },
        EmfRecord::Polybezier(pts) => poly_body(
            &mut b,
            pts.as_slice(),
            types::EMR_POLYBEZIER,
            types::EMR_POLYBEZIER16,
        ),
        EmfRecord::Polygon(pts) => poly_body(
            &mut b,
            pts.as_slice(),
            types::EMR_POLYGON,
            types::EMR_POLYGON16,
        ),
        EmfRecord::Polyline(pts) => poly_body(
            &mut b,
            pts.as_slice(),
            types::EMR_POLYLINE,
            types::EMR_POLYLINE16,
        ),
        EmfRecord::PolybezierTo(pts) => poly_body(
            &mut b,
            pts.as_slice(),
            types::EMR_POLYBEZIERTO,
            types::EMR_POLYBEZIERTO16,
        ),
        EmfRecord::PolylineTo(pts) => poly_body(
            &mut b,
            pts.as_slice(),
            types::EMR_POLYLINETO,
            types::EMR_POLYLINETO16,
        ),
        EmfRecord::Polypolyline { counts, pts } => polypoly_body(
            &mut b,
            counts.as_slice(),
            pts.as_slice(),
            types::EMR_POLYPOLYLINE,
            types::EMR_POLYPOLYLINE16,
        ),
        EmfRecord::Polypolygon { counts, pts } => polypoly_body(
            &mut b,
            counts.as_slice(),
            pts.as_slice(),
            types::EMR_POLYPOLYGON,
            types::EMR_POLYPOLYGON16,
        ),
        EmfRecord::PolyDraw { pts, types } => {
            let t = poly_body(&mut b, pts.as_slice(), types::EMR_POLYDRAW, types::EMR_POLYDRAW16);
            push_bytes(&mut b.0, types.as_slice());
            pad_to_4(&mut b.0);
            t
        },
        EmfRecord::LineTo(p) => {
            b.point_l(*p);
            types::EMR_LINETO
        },
        EmfRecord::AngleArc { center, radius, start_angle, sweep_angle } => {
            b.point_l(*center);
            b.u32(*radius);
            b.f32_bits(*start_angle);
            b.f32_bits(*sweep_angle);
            types::EMR_ANGLEARC
        },
        EmfRecord::Ellipse(r) => {
            b.rect_l(*r);
            types::EMR_ELLIPSE
        },
        EmfRecord::Rectangle(r) => {
            b.rect_l(*r);
            types::EMR_RECTANGLE
        },
        EmfRecord::RoundRect { rect, corner } => {
            b.rect_l(*rect);
            b.size_l(*corner);
            types::EMR_ROUNDRECT
        },
        EmfRecord::Arc { rect, start, end } => arc_body(&mut b, rect, start, end, types::EMR_ARC),
        EmfRecord::ArcTo { rect, start, end } => arc_body(&mut b, rect, start, end, types::EMR_ARCTO),
        EmfRecord::Chord { rect, start, end } => arc_body(&mut b, rect, start, end, types::EMR_CHORD),
        EmfRecord::Pie { rect, start, end } => arc_body(&mut b, rect, start, end, types::EMR_PIE),
        EmfRecord::BeginPath => types::EMR_BEGINPATH,
        EmfRecord::EndPath => types::EMR_ENDPATH,
        EmfRecord::CloseFigure => types::EMR_CLOSEFIGURE,
        EmfRecord::AbortPath => types::EMR_ABORTPATH,
        EmfRecord::FillPath(r) => {
            b.rect_l(*r);
            types::EMR_FILLPATH
        },
        EmfRecord::StrokePath(r) => {
            b.rect_l(*r);
            types::EMR_STROKEPATH
        },
        EmfRecord::StrokeAndFillPath(r) => {
            b.rect_l(*r);
            types::EMR_STROKEANDFILLPATH
        },
        EmfRecord::Comment(data) => {
            b.u32(len_u32(data.len()));
            push_bytes(&mut b.0, data.as_slice());
            pad_to_4(&mut b.0);
            types::EMR_COMMENT
        },
        EmfRecord::Unknown { itype, data } => {
            push_bytes(&mut b.0, data.as_slice());
            *itype
        },
    };
    proof {
        assert(b.0@ =~= spec_record_bytes(rec@).1);
    }
    (itype, b.0)
}

/// Whether every record can be written: no header records among them.
pub open spec fn writable(rs: Seq<EmfRecord>) -> bool {
    forall|i: int| 0 <= i < rs.len() ==> !(#[trigger] rs[i]@ is Header)
}

/// Append one record frame.
fn push_frame(out: &mut Vec<u8>, rec: &EmfRecord)
    requires
        !(rec@ is Header),
    ensures
        final(out)@ == old(out)@ + frame_le(rec@),
{
    let (itype, body) = record_bytes(rec);
    let mut frame = Buf(Vec::new());
    frame.u32(itype);
    frame.u32(len_u32(body.len()).wrapping_add(8));
    push_bytes(out, frame.0.as_slice());
    push_bytes(out, body.as_slice());
    proof {
        crate::wire::lemma_trunc32_add(body@.len() as int, 8);
        assert(final(out)@ =~= old(out)@ + frame_le(rec@));
    }
}

/// Overwrite the four bytes at `at` with the little-endian bytes of `v`.
fn patch_u32(out: &mut Vec<u8>, at: usize, v: u32)
    requires
        at + 4 <= old(out).len(),
    ensures
        final(out)@ == old(out)@.subrange(0, at as int) + u32_le(v) + old(out)@.subrange(
            at + 4,
            old(out)@.len() as int,
        ),
{
    out.set(at, (v % 256) as u8);
    out.set(at + 1, ((v / 256) % 256) as u8);
    out.set(at + 2, ((v / 65536) % 256) as u8);
    out.set(at + 3, (v / 16777216) as u8);
    assert(final(out)@ =~= old(out)@.subrange(0, at as int) + u32_le(v) + old(out)@.subrange(
        at + 4,
        old(out)@.len() as int,
    ));
}

/// The header record with zero counts.
fn header_bytes(header: &EmfHeader) -> (out: Vec<u8>)
    ensures
        out@ == header_le(*header, 0, 0),
{
    // Header record: 88 bytes fixed part, no description.
    let mut hdr = Buf(Vec::new());
    hdr.u32(types::EMR_HEADER);
    hdr.u32(88);
    hdr.rect_l(header.bounds);
    hdr.rect_l(header.frame);
    hdr.u32(types::ENHMETA_SIGNATURE);
    hdr.u32(0x0001_0000);  // nVersion
    hdr.u32(0);  // nBytes (patched below)
    hdr.u32(0);  // nRecords (patched below)
    hdr.u16(header.n_handles);
    hdr.u16(0);  // sReserved
    hdr.u32(0);  // nDescription
    hdr.u32(0);  // offDescription
    hdr.u32(0);  // nPalEntries
    hdr.size_l(header.device);
    hdr.size_l(header.millimeters);
    assert(hdr.0@ =~= header_le(*header, 0, 0));
    hdr.0
}

/// Serialize a complete EMF file: header + records (EOF must be last).
#[verifier::spinoff_prover]
#[verifier::rlimit(40)]
pub fn write_emf(header: &EmfHeader, records: &[EmfRecord]) -> (out: Vec<u8>)
    requires
        writable(records@),
        records@.len() < u32::MAX,
    ensures
        out@ == spec_write_emf(*header, records_view(records@)),
{
    let mut out = header_bytes(header);
    let ghost hdr0 = out@;
    let mut n_records: u32 = 1;
    let mut i: usize = 0;
    while i < records.len()
        invariant
            i <= records@.len(),
            records@.len() < u32::MAX,
            writable(records@),
            n_records == i + 1,
            hdr0 == header_le(*header, 0, 0),
            out@ == hdr0 + frames_le(records_view(records@.subrange(0, i as int))),
        decreases records@.len() - i,
    {
        assert(!(records@[i as int]@ is Header));
        push_frame(&mut out, &records[i]);
        n_records = n_records + 1;
        proof {
            assert(records_view(records@.subrange(0, i + 1)).drop_last() =~= records_view(
                records@.subrange(0, i as int),
            ));
        }
        i = i + 1;
        assert(out@ =~= hdr0 + frames_le(records_view(records@.subrange(0, i as int))));
    }
    assert(records@.subrange(0, records@.len() as int) =~= records@);
    let ghost body = frames_le(records_view(records@));
    let ghost pre = header_pre(*header);
    let ghost post = header_post(*header);
    assert(pre.len() == 48);
    assert(post.len() == 32);
    assert(out@ =~= pre + u32_le(0) + u32_le(0) + post + body);
    let n_bytes = len_u32(out.len());
    let ghost o1 = out@;
    patch_u32(&mut out, 48, n_bytes);
    assert(o1.subrange(0, 48) =~= pre);
    assert(o1.subrange(52, o1.len() as int) =~= u32_le(0) + post + body);
    assert(out@ =~= pre + u32_le(n_bytes) + u32_le(0) + post + body);
    let ghost o2 = out@;
    patch_u32(&mut out, 52, n_records);
    assert(o2.subrange(0, 52) =~= pre + u32_le(n_bytes));
    assert(o2.subrange(56, o2.len() as int) =~= post + body);
    assert(out@ =~= pre + u32_le(n_bytes) + u32_le(n_records) + post + body);
    assert(out@ =~= spec_write_emf(*header, records_view(records@)));
    out
}

} // verus!
