//! EMF binary reader: header parsing plus record framing with strict bounds
//! checking, specified against the field layout of each record type.

use vstd::prelude::*;
use crate::error::{field_err, EmfError};
use crate::records::{records_view, EmfHeader, EmfRecord, RecordModel};
use crate::types;
use crate::types::{ColorRef, PointL, RectL, SizeL, Xform};
use crate::wire::{i16_at, i32_at, read_u16, read_u32, u32_at};

verus! {

// ---------------------------------------------------------------------------
// Field layout
// ---------------------------------------------------------------------------

/// POINTL (two i32) at offset `i`.
pub open spec fn point_l_at(s: Seq<u8>, i: int) -> PointL {
    PointL { x: i32_at(s, i), y: i32_at(s, i + 4) }
}

/// POINTS (two i16, widened) at offset `i`.
pub open spec fn point_s_at(s: Seq<u8>, i: int) -> PointL {
    PointL { x: i16_at(s, i) as i32, y: i16_at(s, i + 2) as i32 }
}

/// SIZEL at offset `i`.
pub open spec fn size_l_at(s: Seq<u8>, i: int) -> SizeL {
    SizeL { cx: i32_at(s, i), cy: i32_at(s, i + 4) }
}

/// RECTL at offset `i`.
pub open spec fn rect_l_at(s: Seq<u8>, i: int) -> RectL {
    RectL { left: i32_at(s, i), top: i32_at(s, i + 4), right: i32_at(s, i + 8), bottom: i32_at(s, i + 12) }
}

/// XFORM (six single-precision bit patterns) at offset `i`.
pub open spec fn xform_at(s: Seq<u8>, i: int) -> Xform {
    Xform {
        m11: u32_at(s, i),
        m12: u32_at(s, i + 4),
        m21: u32_at(s, i + 8),
        m22: u32_at(s, i + 12),
        dx: u32_at(s, i + 16),
        dy: u32_at(s, i + 20),
    }
}

/// COLORREF (r, g, b, reserved) at offset `i`.
pub open spec fn color_at(s: Seq<u8>, i: int) -> ColorRef {
    ColorRef { r: s[i], g: s[i + 1], b: s[i + 2] }
}

/// `n` consecutive 32-bit points starting at offset `i`.
pub open spec fn points_l_at(s: Seq<u8>, i: int, n: nat) -> Seq<PointL> {
    Seq::new(n, |k: int| point_l_at(s, i + 8 * k))
}

/// `n` consecutive 16-bit points starting at offset `i`.
pub open spec fn points_s_at(s: Seq<u8>, i: int, n: nat) -> Seq<PointL> {
    Seq::new(n, |k: int| point_s_at(s, i + 4 * k))
}

/// `n` consecutive u32 values starting at offset `i`.
pub open spec fn u32s_at(s: Seq<u8>, i: int, n: nat) -> Seq<u32> {
    Seq::new(n, |k: int| u32_at(s, i + 4 * k))
}

/// Sum of a sequence of counts.
pub open spec fn seq_sum(s: Seq<u32>) -> int
    decreases s.len(),
{
    if s.len() == 0 {
        0
    } else {
        seq_sum(s.drop_last()) + s.last()
    }
}

// ---------------------------------------------------------------------------
// Cursor
// ---------------------------------------------------------------------------

/// Little-endian cursor over a record payload.
pub struct Cur<'a> {
    d: &'a [u8],
    pos: usize,
}

/// How a read of `n` bytes in fields of width `w` moved the cursor: on
/// success past the `n` bytes, on failure past the whole fields that fit.
pub open spec fn moved(before: Cur, after: Cur, n: int, w: int) -> bool {
    &&& after.bytes() == before.bytes()
    &&& if before.pos() + n <= before.bytes().len() {
        after.pos() == before.pos() + n
    } else {
        after.pos() == before.pos() + w * ((before.bytes().len() - before.pos()) / w)
    }
}

/// The result of a read of `n` bytes that yields `v` when the bytes are there.
pub open spec fn read_ok<T>(before: Cur, n: int, r: Result<T, EmfError>, v: T) -> bool {
    if before.pos() + n <= before.bytes().len() {
        r == Ok::<T, EmfError>(v)
    } else {
        r == Err::<T, EmfError>(field_err())
    }
}

/// The bytes a run of single-field reads consumed: the widths of the reads
/// that found their bytes, where `trace[k]` is the cursor before read `k`
/// and `widths[k]` its width.
pub open spec fn consumed(trace: Seq<Cur>, widths: Seq<int>) -> int
    decreases widths.len(),
{
    if widths.len() == 0 {
        0
    } else {
        let k = widths.len() - 1;
        consumed(trace, widths.drop_last()) + if trace[k].pos() + widths[k] <= trace[k].bytes().len() {
            widths[k]
        } else {
            0
        }
    }
}

/// A run of single-field reads (`u32`, `i32`, `f32_bits`, `i16`, `u16`,
/// `u8`, each of the width it reads) on one cursor: the bytes never change,
/// a read that fails consumes nothing, the position never passes the end,
/// and after the run it has advanced by the widths of the reads that
/// succeeded, so `remaining` has shrunk by exactly that much.
pub proof fn lemma_cursor_run(trace: Seq<Cur>, widths: Seq<int>)
    requires
        trace.len() == widths.len() + 1,
        0 <= trace[0].pos() <= trace[0].bytes().len(),
        forall|k: int|
            0 <= k < widths.len() ==> #[trigger] widths[k] > 0 && moved(
                trace[k],
                trace[k + 1],
                widths[k],
                widths[k],
            ),
    ensures
        forall|k: int|
            0 <= k < trace.len() ==> (#[trigger] trace[k]).bytes() == trace[0].bytes() && 0
                <= trace[k].pos() <= trace[k].bytes().len(),
        forall|k: int|
            0 <= k < widths.len() && trace[k].pos() + widths[k] > trace[k].bytes().len()
                ==> #[trigger] trace[k + 1].pos() == trace[k].pos(),
        trace.last().pos() == trace[0].pos() + consumed(trace, widths),
        trace.last().bytes().len() - trace.last().pos() == trace[0].bytes().len() - trace[0].pos()
            - consumed(trace, widths),
    decreases widths.len(),
{
    let n = widths.len();
    if n > 0 {
        let k = n - 1;
        let t0 = trace.drop_last();
        let w0 = widths.drop_last();
        assert forall|j: int| 0 <= j < w0.len() implies #[trigger] w0[j] > 0 && moved(
            t0[j],
            t0[j + 1],
            w0[j],
            w0[j],
        ) by {
            assert(w0[j] == widths[j]);
            assert(t0[j] == trace[j] && t0[j + 1] == trace[j + 1]);
            assert(widths[j] > 0);
        }
        lemma_cursor_run(t0, w0);
        assert(consumed(t0, w0) == consumed(trace, w0)) by {
            lemma_consumed_agree(t0, trace, w0);
        }
        assert(widths[k] > 0 && moved(trace[k], trace[k + 1], widths[k], widths[k]));
        assert(t0[k] == trace[k]);
        let before = trace[k];
        let len = before.bytes().len();
        if before.pos() + widths[k] > len {
            assert((len - before.pos()) / widths[k] == 0) by (nonlinear_arith)
                requires
                    0 <= len - before.pos() < widths[k],
            ;
            assert(widths[k] * 0 == 0);
        }
        assert forall|j: int| 0 <= j < trace.len() implies (#[trigger] trace[j]).bytes()
            == trace[0].bytes() && 0 <= trace[j].pos() <= trace[j].bytes().len() by {
            if j < n {
                assert(t0[j] == trace[j]);
            }
        }
        assert forall|j: int|
            0 <= j < widths.len() && trace[j].pos() + widths[j] > trace[j].bytes().len()
                implies #[trigger] trace[j + 1].pos() == trace[j].pos() by {
            if j < k {
                assert(t0[j] == trace[j] && t0[j + 1] == trace[j + 1] && w0[j] == widths[j]);
                assert(widths[j] > 0 && moved(trace[j], trace[j + 1], widths[j], widths[j]));
                assert((trace[j].bytes().len() - trace[j].pos()) / widths[j] == 0) by (nonlinear_arith)
                    requires
                        0 <= trace[j].bytes().len() - trace[j].pos() < widths[j],
                ;
            }
        }
    }
}

/// `consumed` looks only at the cursors before each read.
proof fn lemma_consumed_agree(t1: Seq<Cur>, t2: Seq<Cur>, widths: Seq<int>)
    requires
        t1.len() >= widths.len(),
        t2.len() >= widths.len(),
        forall|k: int| 0 <= k < widths.len() ==> t1[k] == t2[k],
    ensures
        consumed(t1, widths) == consumed(t2, widths),
    decreases widths.len(),
{
    if widths.len() > 0 {
        lemma_consumed_agree(t1, t2, widths.drop_last());
    }
}

impl<'a> Cur<'a> {
    #[verifier::type_invariant]
    spec fn inv(&self) -> bool {
        self.pos <= self.d@.len()
    }

    /// The payload being read.
    pub closed spec fn bytes(&self) -> Seq<u8> {
        self.d@
    }

    /// The read position.
    pub closed spec fn pos(&self) -> int {
        self.pos as int
    }

    pub fn new(d: &'a [u8]) -> (c: Self)
        ensures
            c.bytes() == d@,
            c.pos() == 0,
    {
        Cur { d, pos: 0 }
    }

    pub fn remaining(&self) -> (n: usize)
        ensures
            n == self.bytes().len() - self.pos(),
            0 <= self.pos() <= self.bytes().len(),
    {
        proof {
            use_type_invariant(self);
        }
        self.d.len() - self.pos
    }

    fn take(&mut self, n: usize) -> (r: Result<&'a [u8], EmfError>)
        ensures
            moved(*old(self), *final(self), n as int, n as int),
            old(self).pos() + n <= old(self).bytes().len() ==> (r matches Ok(s) && s@
                == old(self).bytes().subrange(old(self).pos(), old(self).pos() + n)),
            old(self).pos() + n > old(self).bytes().len() ==> r == Err::<&'a [u8], EmfError>(
                field_err(),
            ),
            0 <= final(self).pos() <= final(self).bytes().len(),
    {
        proof {
            use_type_invariant(&*self);
        }
        let len = self.d.len();
        if len - self.pos < n {
            proof {
                if n > 0 {
                    assert((self.d@.len() - self.pos) / (n as int) == 0) by (nonlinear_arith)
                        requires
                            0 <= self.d@.len() - self.pos < n,
                    ;
                }
            }
            return Err(EmfError::Truncated("record field out of bounds"));
        }
        let s = vstd::slice::slice_subrange(self.d, self.pos, self.pos + n);
        self.pos = self.pos + n;
        Ok(s)
    }

    pub fn u32(&mut self) -> (r: Result<u32, EmfError>)
        ensures
            moved(*old(self), *final(self), 4, 4),
            read_ok(*old(self), 4, r, u32_at(old(self).bytes(), old(self).pos())),
            0 <= final(self).pos() <= final(self).bytes().len(),
    {
        let s = self.take(4)?;
        Ok(read_u32(s, 0))
    }

    pub fn i32(&mut self) -> (r: Result<i32, EmfError>)
        ensures
            moved(*old(self), *final(self), 4, 4),
            read_ok(*old(self), 4, r, i32_at(old(self).bytes(), old(self).pos())),
            0 <= final(self).pos() <= final(self).bytes().len(),
    {
        let s = self.take(4)?;
        Ok(read_u32(s, 0) as i32)
    }

    /// A single-precision field, returned as its bit pattern.
    pub fn f32_bits(&mut self) -> (r: Result<u32, EmfError>)
        ensures
            moved(*old(self), *final(self), 4, 4),
            read_ok(*old(self), 4, r, u32_at(old(self).bytes(), old(self).pos())),
            0 <= final(self).pos() <= final(self).bytes().len(),
    {
        self.u32()
    }

    pub fn i16(&mut self) -> (r: Result<i16, EmfError>)
        ensures
            moved(*old(self), *final(self), 2, 2),
            read_ok(*old(self), 2, r, i16_at(old(self).bytes(), old(self).pos())),
            0 <= final(self).pos() <= final(self).bytes().len(),
    {
        let s = self.take(2)?;
        Ok(read_u16(s, 0) as i16)
    }

    pub fn u16(&mut self) -> (r: Result<u16, EmfError>)
        ensures
            moved(*old(self), *final(self), 2, 2),
            read_ok(*old(self), 2, r, crate::wire::u16_at(old(self).bytes(), old(self).pos())),
            0 <= final(self).pos() <= final(self).bytes().len(),
    {
        let s = self.take(2)?;
        Ok(read_u16(s, 0))
    }

    pub fn u8(&mut self) -> (r: Result<u8, EmfError>)
        ensures
            moved(*old(self), *final(self), 1, 1),
            read_ok(*old(self), 1, r, old(self).bytes()[old(self).pos()]),
            0 <= final(self).pos() <= final(self).bytes().len(),
    {
        let s = self.take(1)?;
        Ok(s[0])
    }

    pub fn point_l(&mut self) -> (r: Result<PointL, EmfError>)
        ensures
            moved(*old(self), *final(self), 8, 4),
            read_ok(*old(self), 8, r, point_l_at(old(self).bytes(), old(self).pos())),
            0 <= final(self).pos() <= final(self).bytes().len(),
    {
        let x = self.i32()?;
        let y = self.i32()?;
        Ok(PointL::new(x, y))
    }

    pub fn point_s(&mut self) -> (r: Result<PointL, EmfError>)
        ensures
            moved(*old(self), *final(self), 4, 2),
            read_ok(*old(self), 4, r, point_s_at(old(self).bytes(), old(self).pos())),
            0 <= final(self).pos() <= final(self).bytes().len(),
    {
        let x = self.i16()?;
        let y = self.i16()?;
        Ok(PointL::new(x as i32, y as i32))
    }

    pub fn size_l(&mut self) -> (r: Result<SizeL, EmfError>)
        ensures
            moved(*old(self), *final(self), 8, 4),
            read_ok(*old(self), 8, r, size_l_at(old(self).bytes(), old(self).pos())),
            0 <= final(self).pos() <= final(self).bytes().len(),
    {
        let cx = self.i32()?;
        let cy = self.i32()?;
        Ok(SizeL::new(cx, cy))
    }

    pub fn rect_l(&mut self) -> (r: Result<RectL, EmfError>)
        ensures
            moved(*old(self), *final(self), 16, 4),
            read_ok(*old(self), 16, r, rect_l_at(old(self).bytes(), old(self).pos())),
            0 <= final(self).pos() <= final(self).bytes().len(),
    {
        let left = self.i32()?;
        let top = self.i32()?;
        let right = self.i32()?;
        let bottom = self.i32()?;
        Ok(RectL::new(left, top, right, bottom))
    }

    pub fn xform(&mut self) -> (r: Result<Xform, EmfError>)
        ensures
            moved(*old(self), *final(self), 24, 4),
            read_ok(*old(self), 24, r, xform_at(old(self).bytes(), old(self).pos())),
            0 <= final(self).pos() <= final(self).bytes().len(),
    {
        let m11 = self.f32_bits()?;
        let m12 = self.f32_bits()?;
        let m21 = self.f32_bits()?;
        let m22 = self.f32_bits()?;
        let dx = self.f32_bits()?;
        let dy = self.f32_bits()?;
        Ok(Xform { m11, m12, m21, m22, dx, dy })
    }

    pub fn color(&mut self) -> (r: Result<ColorRef, EmfError>)
        ensures
            moved(*old(self), *final(self), 4, 1),
            read_ok(*old(self), 4, r, color_at(old(self).bytes(), old(self).pos())),
            0 <= final(self).pos() <= final(self).bytes().len(),
    {
        let r = self.u8()?;
        let g = self.u8()?;
        let b = self.u8()?;
        let _reserved = self.u8()?;
        Ok(ColorRef::new(r, g, b))
    }
}

} // verus!

verus! {

// ---------------------------------------------------------------------------
// Record layouts
// ---------------------------------------------------------------------------

/// `n` points at offset `off`, 32- or 16-bit wide, when the payload holds them.
pub open spec fn spec_points(p: Seq<u8>, off: int, n: int, wide: bool) -> Result<
    Seq<PointL>,
    EmfError,
> {
    if wide {
        if n > (p.len() - off) / 8 {
            Err(EmfError::Truncated("point array out of bounds"))
        } else {
            Ok(points_l_at(p, off, n as nat))
        }
    } else {
        if n > (p.len() - off) / 4 {
            Err(EmfError::Truncated("point16 array out of bounds"))
        } else {
            Ok(points_s_at(p, off, n as nat))
        }
    }
}

/// Byte size of `n` points.
pub open spec fn points_size(n: int, wide: bool) -> int {
    if wide {
        8 * n
    } else {
        4 * n
    }
}

/// Poly record body: bounds (ignored), count, points.
pub open spec fn spec_poly(p: Seq<u8>, wide: bool) -> Result<Seq<PointL>, EmfError> {
    if p.len() < 20 {
        Err(field_err())
    } else {
        spec_points(p, 20, u32_at(p, 16) as int, wide)
    }
}

/// PolyPoly record body: bounds (ignored), polygon count, point count, the
/// per-polygon counts (which must add up to the point count), the points.
pub open spec fn spec_polypoly(p: Seq<u8>, wide: bool) -> Result<(Seq<u32>, Seq<PointL>), EmfError> {
    if p.len() < 24 {
        Err(field_err())
    } else {
        let np = u32_at(p, 16) as int;
        let npts = u32_at(p, 20) as int;
        if np > (p.len() - 24) / 4 {
            Err(EmfError::Truncated("poly count array out of bounds"))
        } else {
            let counts = u32s_at(p, 24, np as nat);
            if seq_sum(counts) != npts {
                Err(EmfError::Malformed("poly counts do not sum to point count"))
            } else {
                match spec_points(p, 24 + 4 * np, npts, wide) {
                    Ok(pts) => Ok((counts, pts)),
                    Err(e) => Err(e),
                }
            }
        }
    }
}

/// PolyDraw record body: bounds (ignored), count, points, one type byte per point.
pub open spec fn spec_polydraw(p: Seq<u8>, wide: bool) -> Result<(Seq<PointL>, Seq<u8>), EmfError> {
    if p.len() < 20 {
        Err(field_err())
    } else {
        let n = u32_at(p, 16) as int;
        match spec_points(p, 20, n, wide) {
            Err(e) => Err(e),
            Ok(pts) => {
                let off = 20 + points_size(n, wide);
                if n > p.len() - off {
                    Err(EmfError::Truncated("polydraw type array out of bounds"))
                } else {
                    Ok((pts, p.subrange(off, off + n)))
                }
            },
        }
    }
}

/// Arc-like record body: bounding rectangle, start and end radials.
pub open spec fn spec_arc_like(p: Seq<u8>) -> Result<(RectL, PointL, PointL), EmfError> {
    if p.len() < 32 {
        Err(field_err())
    } else {
        Ok((rect_l_at(p, 0), point_l_at(p, 16), point_l_at(p, 24)))
    }
}

/// A fixed-size record: `r` when the payload holds at least `n` bytes.
pub open spec fn need(p: Seq<u8>, n: int, r: RecordModel) -> Result<RecordModel, EmfError> {
    if p.len() >= n {
        Ok(r)
    } else {
        Err(field_err())
    }
}

/// EXTCREATEPEN body: handle, four bitmap fields (ignored), style, width,
/// brush style, color, hatch, entry count, style entries.
pub open spec fn spec_ext_create_pen(p: Seq<u8>) -> Result<RecordModel, EmfError> {
    if p.len() < 44 {
        Err(field_err())
    } else {
        let n = u32_at(p, 40) as int;
        if n > (p.len() - 44) / 4 {
            Err(EmfError::Truncated("pen style entries out of bounds"))
        } else {
            Ok(
                RecordModel::ExtCreatePen {
                    ih: u32_at(p, 0),
                    style: u32_at(p, 20),
                    width: u32_at(p, 24),
                    brush_style: u32_at(p, 28),
                    color: color_at(p, 32),
                    hatch: u32_at(p, 36),
                    style_entries: u32s_at(p, 44, n as nat),
                },
            )
        }
    }
}

/// COMMENT body: data length, then the data.
pub open spec fn spec_comment(p: Seq<u8>) -> Result<RecordModel, EmfError> {
    if p.len() < 4 {
        Err(field_err())
    } else {
        let cb = u32_at(p, 0) as int;
        if cb > p.len() - 4 {
            Err(EmfError::Truncated("comment data out of bounds"))
        } else {
            Ok(RecordModel::Comment(p.subrange(4, 4 + cb)))
        }
    }
}

pub open spec fn map_points(
    r: Result<Seq<PointL>, EmfError>,
    f: spec_fn(Seq<PointL>) -> RecordModel,
) -> Result<RecordModel, EmfError> {
    match r {
        Ok(v) => Ok(f(v)),
        Err(e) => Err(e),
    }
}

pub open spec fn map_polypoly(
    r: Result<(Seq<u32>, Seq<PointL>), EmfError>,
    line: bool,
) -> Result<RecordModel, EmfError> {
    match r {
        Ok((counts, pts)) => if line {
            Ok(RecordModel::Polypolyline { counts, pts })
        } else {
            Ok(RecordModel::Polypolygon { counts, pts })
        },
        Err(e) => Err(e),
    }
}

pub open spec fn map_polydraw(r: Result<(Seq<PointL>, Seq<u8>), EmfError>) -> Result<
    RecordModel,
    EmfError,
> {
    match r {
        Ok((pts, types)) => Ok(RecordModel::PolyDraw { pts, types }),
        Err(e) => Err(e),
    }
}

/// Which arc-like record a type number denotes.
pub open spec fn map_arc(r: Result<(RectL, PointL, PointL), EmfError>, itype: u32) -> Result<
    RecordModel,
    EmfError,
> {
    match r {
        Ok((rect, start, end)) => if itype == types::EMR_ARC {
            Ok(RecordModel::Arc { rect, start, end })
        } else if itype == types::EMR_ARCTO {
            Ok(RecordModel::ArcTo { rect, start, end })
        } else if itype == types::EMR_CHORD {
            Ok(RecordModel::Chord { rect, start, end })
        } else {
            Ok(RecordModel::Pie { rect, start, end })
        },
        Err(e) => Err(e),
    }
}

/// State and transform records.
#[verifier::opaque]
pub open spec fn spec_state_record(itype: u32, p: Seq<u8>) -> Result<RecordModel, EmfError> {
    if itype == types::EMR_EOF {
        Ok(RecordModel::Eof)
    } else if itype == types::EMR_SETMAPMODE {
        need(p, 4, RecordModel::SetMapMode(u32_at(p, 0)))
    } else if itype == types::EMR_SETWINDOWEXTEX {
        need(p, 8, RecordModel::SetWindowExtEx(size_l_at(p, 0)))
    } else if itype == types::EMR_SETWINDOWORGEX {
        need(p, 8, RecordModel::SetWindowOrgEx(point_l_at(p, 0)))
    } else if itype == types::EMR_SETVIEWPORTEXTEX {
        need(p, 8, RecordModel::SetViewportExtEx(size_l_at(p, 0)))
    } else if itype == types::EMR_SETVIEWPORTORGEX {
        need(p, 8, RecordModel::SetViewportOrgEx(point_l_at(p, 0)))
    } else if itype == types::EMR_SETPOLYFILLMODE {
        need(p, 4, RecordModel::SetPolyfillMode(u32_at(p, 0)))
    } else if itype == types::EMR_SETMITERLIMIT {
        need(p, 4, RecordModel::SetMiterLimit(u32_at(p, 0)))
    } else if itype == types::EMR_SETARCDIRECTION {
        need(p, 4, RecordModel::SetArcDirection(u32_at(p, 0)))
    } else if itype == types::EMR_MOVETOEX {
        need(p, 8, RecordModel::MoveToEx(point_l_at(p, 0)))
    } else if itype == types::EMR_SAVEDC {
        Ok(RecordModel::SaveDc)
    } else if itype == types::EMR_RESTOREDC {
        need(p, 4, RecordModel::RestoreDc(i32_at(p, 0)))
    } else if itype == types::EMR_SETWORLDTRANSFORM {
        need(p, 24, RecordModel::SetWorldTransform(xform_at(p, 0)))
    } else {
        need(p, 28, RecordModel::ModifyWorldTransform { xform: xform_at(p, 0), mode: u32_at(p, 24) })
    }
}

pub open spec fn is_state_type(itype: u32) -> bool {
    itype == types::EMR_EOF || itype == types::EMR_SETMAPMODE || itype == types::EMR_SETWINDOWEXTEX
        || itype == types::EMR_SETWINDOWORGEX || itype == types::EMR_SETVIEWPORTEXTEX || itype
        == types::EMR_SETVIEWPORTORGEX || itype == types::EMR_SETPOLYFILLMODE || itype
        == types::EMR_SETMITERLIMIT || itype == types::EMR_SETARCDIRECTION || itype
        == types::EMR_MOVETOEX || itype == types::EMR_SAVEDC || itype == types::EMR_RESTOREDC
        || itype == types::EMR_SETWORLDTRANSFORM || itype == types::EMR_MODIFYWORLDTRANSFORM
}

/// Object creation and selection records.
#[verifier::opaque]
pub open spec fn spec_object_record(itype: u32, p: Seq<u8>) -> Result<RecordModel, EmfError> {
    if itype == types::EMR_CREATEPEN {
        need(
            p,
            20,
            RecordModel::CreatePen {
                ih: u32_at(p, 0),
                style: u32_at(p, 4),
                width: i32_at(p, 8),
                color: color_at(p, 16),
            },
        )
    } else if itype == types::EMR_EXTCREATEPEN {
        spec_ext_create_pen(p)
    } else if itype == types::EMR_CREATEBRUSHINDIRECT {
        need(
            p,
            16,
            RecordModel::CreateBrushIndirect {
                ih: u32_at(p, 0),
                style: u32_at(p, 4),
                color: color_at(p, 8),
                hatch: u32_at(p, 12),
            },
        )
    } else if itype == types::EMR_SELECTOBJECT {
        need(p, 4, RecordModel::SelectObject(u32_at(p, 0)))
    } else {
        need(p, 4, RecordModel::DeleteObject(u32_at(p, 0)))
    }
}

pub open spec fn is_object_type(itype: u32) -> bool {
    itype == types::EMR_CREATEPEN || itype == types::EMR_EXTCREATEPEN || itype
        == types::EMR_CREATEBRUSHINDIRECT || itype == types::EMR_SELECTOBJECT || itype
        == types::EMR_DELETEOBJECT
}

/// Point-list records, 32-bit and 16-bit forms.
#[verifier::opaque]
pub open spec fn spec_poly_record(itype: u32, p: Seq<u8>) -> Result<RecordModel, EmfError> {
    if itype == types::EMR_POLYBEZIER {
        map_points(spec_poly(p, true), |v| RecordModel::Polybezier(v))
    } else if itype == types::EMR_POLYGON {
        map_points(spec_poly(p, true), |v| RecordModel::Polygon(v))
    } else if itype == types::EMR_POLYLINE {
        map_points(spec_poly(p, true), |v| RecordModel::Polyline(v))
    } else if itype == types::EMR_POLYBEZIERTO {
        map_points(spec_poly(p, true), |v| RecordModel::PolybezierTo(v))
    } else if itype == types::EMR_POLYLINETO {
        map_points(spec_poly(p, true), |v| RecordModel::PolylineTo(v))
    } else if itype == types::EMR_POLYBEZIER16 {
        map_points(spec_poly(p, false), |v| RecordModel::Polybezier(v))
    } else if itype == types::EMR_POLYGON16 {
        map_points(spec_poly(p, false), |v| RecordModel::Polygon(v))
    } else if itype == types::EMR_POLYLINE16 {
        map_points(spec_poly(p, false), |v| RecordModel::Polyline(v))
    } else if itype == types::EMR_POLYBEZIERTO16 {
        map_points(spec_poly(p, false), |v| RecordModel::PolybezierTo(v))
    } else if itype == types::EMR_POLYLINETO16 {
        map_points(spec_poly(p, false), |v| RecordModel::PolylineTo(v))
    } else if itype == types::EMR_POLYPOLYLINE {
        map_polypoly(spec_polypoly(p, true), true)
    } else if itype == types::EMR_POLYPOLYGON {
        map_polypoly(spec_polypoly(p, true), false)
    } else if itype == types::EMR_POLYPOLYLINE16 {
        map_polypoly(spec_polypoly(p, false), true)
    } else if itype == types::EMR_POLYPOLYGON16 {
        map_polypoly(spec_polypoly(p, false), false)
    } else if itype == types::EMR_POLYDRAW {
        map_polydraw(spec_polydraw(p, true))
    } else {
        map_polydraw(spec_polydraw(p, false))
    }
}

pub open spec fn is_poly_type(itype: u32) -> bool {
    itype == types::EMR_POLYBEZIER || itype == types::EMR_POLYGON || itype == types::EMR_POLYLINE
        || itype == types::EMR_POLYBEZIERTO || itype == types::EMR_POLYLINETO || itype
        == types::EMR_POLYBEZIER16 || itype == types::EMR_POLYGON16 || itype
        == types::EMR_POLYLINE16 || itype == types::EMR_POLYBEZIERTO16 || itype
        == types::EMR_POLYLINETO16 || itype == types::EMR_POLYPOLYLINE || itype
        == types::EMR_POLYPOLYGON || itype == types::EMR_POLYPOLYLINE16 || itype
        == types::EMR_POLYPOLYGON16 || itype == types::EMR_POLYDRAW || itype
        == types::EMR_POLYDRAW16
}

/// Shape, arc and path-bracket records.
#[verifier::opaque]
pub open spec fn spec_shape_record(itype: u32, p: Seq<u8>) -> Result<RecordModel, EmfError> {
    if itype == types::EMR_LINETO {
        need(p, 8, RecordModel::LineTo(point_l_at(p, 0)))
    } else if itype == types::EMR_ANGLEARC {
        need(
            p,
            20,
            RecordModel::AngleArc {
                center: point_l_at(p, 0),
                radius: u32_at(p, 8),
                start_angle: u32_at(p, 12),
                sweep_angle: u32_at(p, 16),
            },
        )
    } else if itype == types::EMR_ELLIPSE {
        need(p, 16, RecordModel::Ellipse(rect_l_at(p, 0)))
    } else if itype == types::EMR_RECTANGLE {
        need(p, 16, RecordModel::Rectangle(rect_l_at(p, 0)))
    } else if itype == types::EMR_ROUNDRECT {
        need(p, 24, RecordModel::RoundRect { rect: rect_l_at(p, 0), corner: size_l_at(p, 16) })
    } else if itype == types::EMR_ARC || itype == types::EMR_ARCTO || itype == types::EMR_CHORD
        || itype == types::EMR_PIE {
        map_arc(spec_arc_like(p), itype)
    } else if itype == types::EMR_BEGINPATH {
        Ok(RecordModel::BeginPath)
    } else if itype == types::EMR_ENDPATH {
        Ok(RecordModel::EndPath)
    } else if itype == types::EMR_CLOSEFIGURE {
        Ok(RecordModel::CloseFigure)
    } else if itype == types::EMR_ABORTPATH {
        Ok(RecordModel::AbortPath)
    } else if itype == types::EMR_FILLPATH {
        need(p, 16, RecordModel::FillPath(rect_l_at(p, 0)))
    } else if itype == types::EMR_STROKEPATH {
        need(p, 16, RecordModel::StrokePath(rect_l_at(p, 0)))
    } else {
        need(p, 16, RecordModel::StrokeAndFillPath(rect_l_at(p, 0)))
    }
}

pub open spec fn is_shape_type(itype: u32) -> bool {
    itype == types::EMR_LINETO || itype == types::EMR_ANGLEARC || itype == types::EMR_ELLIPSE
        || itype == types::EMR_RECTANGLE || itype == types::EMR_ROUNDRECT || itype == types::EMR_ARC
        || itype == types::EMR_ARCTO || itype == types::EMR_CHORD || itype == types::EMR_PIE
        || itype == types::EMR_BEGINPATH || itype == types::EMR_ENDPATH || itype
        == types::EMR_CLOSEFIGURE || itype == types::EMR_ABORTPATH || itype == types::EMR_FILLPATH
        || itype == types::EMR_STROKEPATH || itype == types::EMR_STROKEANDFILLPATH
}

/// The record a payload of the given type denotes, or why it is malformed.
/// Types outside the modelled set are kept verbatim as `Unknown`.
#[verifier::opaque]
pub open spec fn spec_parse_record(itype: u32, p: Seq<u8>) -> Result<RecordModel, EmfError> {
    if is_state_type(itype) {
        spec_state_record(itype, p)
    } else if is_object_type(itype) {
        spec_object_record(itype, p)
    } else if is_poly_type(itype) {
        spec_poly_record(itype, p)
    } else if is_shape_type(itype) {
        spec_shape_record(itype, p)
    } else if itype == types::EMR_COMMENT {
        spec_comment(p)
    } else {
        Ok(RecordModel::Unknown { itype, data: p })
    }
}

/// The model of a parse result.
pub open spec fn res_view<T: View>(r: Result<T, EmfError>) -> Result<T::V, EmfError> {
    match r {
        Ok(v) => Ok(v@),
        Err(e) => Err(e),
    }
}

} // verus!

verus! {

// ---------------------------------------------------------------------------
// Record parsing
// ---------------------------------------------------------------------------

/// Read `n` points, 32-bit wide.
fn points_l(c: &mut Cur, n: u32) -> (r: Result<Vec<PointL>, EmfError>)
    ensures
        final(c).bytes() == old(c).bytes(),
        res_view(r) == spec_points(old(c).bytes(), old(c).pos(), n as int, true),
        r is Ok ==> final(c).pos() == old(c).pos() + 8 * n,
{
    let rem = c.remaining();
    if n as usize > rem / 8 {
        return Err(EmfError::Truncated("point array out of bounds"));
    }
    let ghost start = c.pos();
    let ghost bytes = c.bytes();
    let mut v: Vec<PointL> = Vec::new();
    let mut i: u32 = 0;
    while i < n
        invariant
            i <= n,
            c.bytes() == bytes,
            c.pos() == start + 8 * i,
            start + 8 * n <= bytes.len(),
            v@ == points_l_at(bytes, start, i as nat),
        decreases n - i,
    {
        let p = c.point_l()?;
        v.push(p);
        i = i + 1;
        assert(v@ =~= points_l_at(bytes, start, i as nat));
    }
    Ok(v)
}

/// Read `n` points, 16-bit wide (widened to i32).
fn points_s(c: &mut Cur, n: u32) -> (r: Result<Vec<PointL>, EmfError>)
    ensures
        final(c).bytes() == old(c).bytes(),
        res_view(r) == spec_points(old(c).bytes(), old(c).pos(), n as int, false),
        r is Ok ==> final(c).pos() == old(c).pos() + 4 * n,
{
    let rem = c.remaining();
    if n as usize > rem / 4 {
        return Err(EmfError::Truncated("point16 array out of bounds"));
    }
    let ghost start = c.pos();
    let ghost bytes = c.bytes();
    let mut v: Vec<PointL> = Vec::new();
    let mut i: u32 = 0;
    while i < n
        invariant
            i <= n,
            c.bytes() == bytes,
            c.pos() == start + 4 * i,
            start + 4 * n <= bytes.len(),
            v@ == points_s_at(bytes, start, i as nat),
        decreases n - i,
    {
        let p = c.point_s()?;
        v.push(p);
        i = i + 1;
        assert(v@ =~= points_s_at(bytes, start, i as nat));
    }
    Ok(v)
}

fn points(c: &mut Cur, n: u32, wide: bool) -> (r: Result<Vec<PointL>, EmfError>)
    ensures
        final(c).bytes() == old(c).bytes(),
        res_view(r) == spec_points(old(c).bytes(), old(c).pos(), n as int, wide),
        r is Ok ==> final(c).pos() == old(c).pos() + points_size(n as int, wide),
{
    if wide {
        points_l(c, n)
    } else {
        points_s(c, n)
    }
}

fn poly(payload: &[u8], wide: bool) -> (r: Result<Vec<PointL>, EmfError>)
    ensures
        res_view(r) == spec_poly(payload@, wide),
{
    let mut c = Cur::new(payload);
    let _bounds = c.rect_l()?;
    let n = c.u32()?;
    points(&mut c, n, wide)
}

/// Read `n` u32 values.
fn u32s(c: &mut Cur, n: u32) -> (r: Result<Vec<u32>, EmfError>)
    requires
        old(c).pos() + 4 * n <= old(c).bytes().len(),
    ensures
        final(c).bytes() == old(c).bytes(),
        r matches Ok(v) && v@ == u32s_at(old(c).bytes(), old(c).pos(), n as nat),
        final(c).pos() == old(c).pos() + 4 * n,
{
    let ghost start = c.pos();
    let ghost bytes = c.bytes();
    let mut v: Vec<u32> = Vec::new();
    let mut i: u32 = 0;
    while i < n
        invariant
            i <= n,
            c.bytes() == bytes,
            c.pos() == start + 4 * i,
            start + 4 * n <= bytes.len(),
            v@ == u32s_at(bytes, start, i as nat),
        decreases n - i,
    {
        let x = c.u32()?;
        v.push(x);
        i = i + 1;
        assert(v@ =~= u32s_at(bytes, start, i as nat));
    }
    Ok(v)
}

fn polypoly(payload: &[u8], wide: bool) -> (r: Result<(Vec<u32>, Vec<PointL>), EmfError>)
    ensures
        res_view(r) == spec_polypoly(payload@, wide),
{
    let mut c = Cur::new(payload);
    let _bounds = c.rect_l()?;
    let n_polys = c.u32()?;
    let n_pts = c.u32()?;
    let rem = c.remaining();
    if n_polys as usize > rem / 4 {
        return Err(EmfError::Truncated("poly count array out of bounds"));
    }
    let counts = u32s(&mut c, n_polys)?;
    let mut total: u64 = 0;
    let mut i: usize = 0;
    while i < counts.len()
        invariant
            i <= counts@.len(),
            counts@.len() <= u32::MAX,
            total == seq_sum(counts@.subrange(0, i as int)),
            total <= i * 0xFFFF_FFFF,
        decreases counts@.len() - i,
    {
        assert(counts@.subrange(0, i + 1).drop_last() =~= counts@.subrange(0, i as int));
        total = total + counts[i] as u64;
        i = i + 1;
    }
    assert(counts@.subrange(0, counts@.len() as int) =~= counts@);
    if total != n_pts as u64 {
        return Err(EmfError::Malformed("poly counts do not sum to point count"));
    }
    let pts = points(&mut c, n_pts, wide)?;
    Ok((counts, pts))
}

fn polydraw(payload: &[u8], wide: bool) -> (r: Result<(Vec<PointL>, Vec<u8>), EmfError>)
    ensures
        res_view(r) == spec_polydraw(payload@, wide),
{
    let mut c = Cur::new(payload);
    let _bounds = c.rect_l()?;
    let n = c.u32()?;
    let pts = points(&mut c, n, wide)?;
    let rem = c.remaining();
    if n as usize > rem {
        return Err(EmfError::Truncated("polydraw type array out of bounds"));
    }
    let ghost start = c.pos();
    let ghost bytes = c.bytes();
    let mut types: Vec<u8> = Vec::new();
    let mut i: u32 = 0;
    while i < n
        invariant
            i <= n,
            c.bytes() == bytes,
            c.pos() == start + i,
            0 <= start,
            start + n <= bytes.len(),
            types@ == bytes.subrange(start, start + i),
        decreases n - i,
    {
        let ghost before = types@;
        let t = c.u8()?;
        assert(t == bytes[start + i]);
        types.push(t);
        assert(types@ == before.push(t));
        i = i + 1;
        assert(types@ =~= bytes.subrange(start, start + i));
    }
    Ok((pts, types))
}

fn arc_like(payload: &[u8]) -> (r: Result<(RectL, PointL, PointL), EmfError>)
    ensures
        r == spec_arc_like(payload@),
{
    let mut c = Cur::new(payload);
    let rect = c.rect_l()?;
    let start = c.point_l()?;
    let end = c.point_l()?;
    Ok((rect, start, end))
}

} // verus!

verus! {

fn parse_state_record(itype: u32, payload: &[u8]) -> (r: Result<EmfRecord, EmfError>)
    requires
        is_state_type(itype),
    ensures
        res_view(r) == spec_state_record(itype, payload@),
{
    reveal(spec_state_record);
    let mut c = Cur::new(payload);
    let rec = if itype == types::EMR_EOF {
        EmfRecord::Eof
    } else if itype == types::EMR_SETMAPMODE {
        EmfRecord::SetMapMode(c.u32()?)
    } else if itype == types::EMR_SETWINDOWEXTEX {
        EmfRecord::SetWindowExtEx(c.size_l()?)
    } else if itype == types::EMR_SETWINDOWORGEX {
        EmfRecord::SetWindowOrgEx(c.point_l()?)
    } else if itype == types::EMR_SETVIEWPORTEXTEX {
        EmfRecord::SetViewportExtEx(c.size_l()?)
    } else if itype == types::EMR_SETVIEWPORTORGEX {
        EmfRecord::SetViewportOrgEx(c.point_l()?)
    } else if itype == types::EMR_SETPOLYFILLMODE {
        EmfRecord::SetPolyfillMode(c.u32()?)
    } else if itype == types::EMR_SETMITERLIMIT {
        EmfRecord::SetMiterLimit(c.f32_bits()?)
    } else if itype == types::EMR_SETARCDIRECTION {
        EmfRecord::SetArcDirection(c.u32()?)
    } else if itype == types::EMR_MOVETOEX {
        EmfRecord::MoveToEx(c.point_l()?)
    } else if itype == types::EMR_SAVEDC {
        EmfRecord::SaveDc
    } else if itype == types::EMR_RESTOREDC {
        EmfRecord::RestoreDc(c.i32()?)
    } else if itype == types::EMR_SETWORLDTRANSFORM {
        EmfRecord::SetWorldTransform(c.xform()?)
    } else {
        let xform = c.xform()?;
        let mode = c.u32()?;
        EmfRecord::ModifyWorldTransform { xform, mode }
    };
    Ok(rec)
}

fn parse_ext_create_pen(payload: &[u8]) -> (r: Result<EmfRecord, EmfError>)
    ensures
        res_view(r) == spec_ext_create_pen(payload@),
{
    let mut c = Cur::new(payload);
    let ih = c.u32()?;
    let _off_bmi = c.u32()?;
    let _cb_bmi = c.u32()?;
    let _off_bits = c.u32()?;
    let _cb_bits = c.u32()?;
    let style = c.u32()?;
    let width = c.u32()?;
    let brush_style = c.u32()?;
    let color = c.color()?;
    let hatch = c.u32()?;
    let n_entries = c.u32()?;
    let rem = c.remaining();
    if n_entries as usize > rem / 4 {
        return Err(EmfError::Truncated("pen style entries out of bounds"));
    }
    let style_entries = u32s(&mut c, n_entries)?;
    Ok(EmfRecord::ExtCreatePen { ih, style, width, brush_style, color, hatch, style_entries })
}

fn parse_object_record(itype: u32, payload: &[u8]) -> (r: Result<EmfRecord, EmfError>)
    requires
        is_object_type(itype),
    ensures
        res_view(r) == spec_object_record(itype, payload@),
{
    reveal(spec_object_record);
    if itype == types::EMR_EXTCREATEPEN {
        return parse_ext_create_pen(payload);
    }
    let mut c = Cur::new(payload);
    let rec = if itype == types::EMR_CREATEPEN {
        let ih = c.u32()?;
        let style = c.u32()?;
        let w = c.point_l()?;
        let color = c.color()?;
        EmfRecord::CreatePen { ih, style, width: w.x, color }
    } else if itype == types::EMR_CREATEBRUSHINDIRECT {
        let ih = c.u32()?;
        let style = c.u32()?;
        let color = c.color()?;
        let hatch = c.u32()?;
        EmfRecord::CreateBrushIndirect { ih, style, color, hatch }
    } else if itype == types::EMR_SELECTOBJECT {
        EmfRecord::SelectObject(c.u32()?)
    } else {
        EmfRecord::DeleteObject(c.u32()?)
    };
    Ok(rec)
}

fn parse_poly_record(itype: u32, payload: &[u8]) -> (r: Result<EmfRecord, EmfError>)
    requires
        is_poly_type(itype),
    ensures
        res_view(r) == spec_poly_record(itype, payload@),
{
    reveal(spec_poly_record);
    if itype == types::EMR_POLYPOLYLINE || itype == types::EMR_POLYPOLYLINE16 {
        let (counts, pts) = polypoly(payload, itype == types::EMR_POLYPOLYLINE)?;
        return Ok(EmfRecord::Polypolyline { counts, pts });
    }
    if itype == types::EMR_POLYPOLYGON || itype == types::EMR_POLYPOLYGON16 {
        let (counts, pts) = polypoly(payload, itype == types::EMR_POLYPOLYGON)?;
        return Ok(EmfRecord::Polypolygon { counts, pts });
    }
    if itype == types::EMR_POLYDRAW || itype == types::EMR_POLYDRAW16 {
        let (pts, types) = polydraw(payload, itype == types::EMR_POLYDRAW)?;
        return Ok(EmfRecord::PolyDraw { pts, types });
    }
    let wide = itype == types::EMR_POLYBEZIER || itype == types::EMR_POLYGON || itype
        == types::EMR_POLYLINE || itype == types::EMR_POLYBEZIERTO || itype
        == types::EMR_POLYLINETO;
    let pts = poly(payload, wide)?;
    let rec = if itype == types::EMR_POLYBEZIER || itype == types::EMR_POLYBEZIER16 {
        EmfRecord::Polybezier(pts)
    } else if itype == types::EMR_POLYGON || itype == types::EMR_POLYGON16 {
        EmfRecord::Polygon(pts)
    } else if itype == types::EMR_POLYLINE || itype == types::EMR_POLYLINE16 {
        EmfRecord::Polyline(pts)
    } else if itype == types::EMR_POLYBEZIERTO || itype == types::EMR_POLYBEZIERTO16 {
        EmfRecord::PolybezierTo(pts)
    } else {
        EmfRecord::PolylineTo(pts)
    };
    Ok(rec)
}

fn parse_shape_record(itype: u32, payload: &[u8]) -> (r: Result<EmfRecord, EmfError>)
    requires
        is_shape_type(itype),
    ensures
        res_view(r) == spec_shape_record(itype, payload@),
{
    reveal(spec_shape_record);
    if itype == types::EMR_ARC || itype == types::EMR_ARCTO || itype == types::EMR_CHORD || itype
        == types::EMR_PIE {
        let (rect, start, end) = arc_like(payload)?;
        let rec = if itype == types::EMR_ARC {
            EmfRecord::Arc { rect, start, end }
        } else if itype == types::EMR_ARCTO {
            EmfRecord::ArcTo { rect, start, end }
        } else if itype == types::EMR_CHORD {
            EmfRecord::Chord { rect, start, end }
        } else {
            EmfRecord::Pie { rect, start, end }
        };
        return Ok(rec);
    }
    let mut c = Cur::new(payload);
    let rec = if itype == types::EMR_LINETO {
        EmfRecord::LineTo(c.point_l()?)
    } else if itype == types::EMR_ANGLEARC {
        let center = c.point_l()?;
        let radius = c.u32()?;
        let start_angle = c.f32_bits()?;
        let sweep_angle = c.f32_bits()?;
        EmfRecord::AngleArc { center, radius, start_angle, sweep_angle }
    } else if itype == types::EMR_ELLIPSE {
        EmfRecord::Ellipse(c.rect_l()?)
    } else if itype == types::EMR_RECTANGLE {
        EmfRecord::Rectangle(c.rect_l()?)
    } else if itype == types::EMR_ROUNDRECT {
        let rect = c.rect_l()?;
        let corner = c.size_l()?;
        EmfRecord::RoundRect { rect, corner }
    } else if itype == types::EMR_BEGINPATH {
        EmfRecord::BeginPath
    } else if itype == types::EMR_ENDPATH {
        EmfRecord::EndPath
    } else if itype == types::EMR_CLOSEFIGURE {
        EmfRecord::CloseFigure
    } else if itype == types::EMR_ABORTPATH {
        EmfRecord::AbortPath
    } else if itype == types::EMR_FILLPATH {
        EmfRecord::FillPath(c.rect_l()?)
    } else if itype == types::EMR_STROKEPATH {
        EmfRecord::StrokePath(c.rect_l()?)
    } else {
        EmfRecord::StrokeAndFillPath(c.rect_l()?)
    };
    Ok(rec)
}

/// Copy `payload[from..to]` into a new vector.
fn copy_range(payload: &[u8], from: usize, to: usize) -> (v: Vec<u8>)
    requires
        from <= to <= payload@.len(),
    ensures
        v@ == payload@.subrange(from as int, to as int),
{
    let mut v: Vec<u8> = Vec::new();
    let mut i = from;
    while i < to
        invariant
            from <= i <= to <= payload@.len(),
            v@ == payload@.subrange(from as int, i as int),
        decreases to - i,
    {
        v.push(payload[i]);
        i = i + 1;
        assert(v@ =~= payload@.subrange(from as int, i as int));
    }
    v
}

fn parse_comment(payload: &[u8]) -> (r: Result<EmfRecord, EmfError>)
    ensures
        res_view(r) == spec_comment(payload@),
{
    // cbData, then the comment bytes.
    let len = payload.len();
    let mut c = Cur::new(payload);
    let cb = c.u32()? as usize;
    let rem = c.remaining();
    if cb > rem {
        return Err(EmfError::Truncated("comment data out of bounds"));
    }
    Ok(EmfRecord::Comment(copy_range(payload, 4, 4 + cb)))
}

/// Parse one record payload of the given type.
pub fn parse_record(itype: u32, payload: &[u8]) -> (r: Result<EmfRecord, EmfError>)
    ensures
        res_view(r) == spec_parse_record(itype, payload@),
{
    reveal(spec_parse_record);
    if is_state(itype) {
        parse_state_record(itype, payload)
    } else if is_object(itype) {
        parse_object_record(itype, payload)
    } else if is_poly(itype) {
        parse_poly_record(itype, payload)
    } else if is_shape(itype) {
        parse_shape_record(itype, payload)
    } else if itype == types::EMR_COMMENT {
        parse_comment(payload)
    } else {
        let data = copy_range(payload, 0, payload.len());
        assert(data@ =~= payload@);
        Ok(EmfRecord::Unknown { itype, data })
    }
}

fn is_state(itype: u32) -> (b: bool)
    ensures
        b == is_state_type(itype),
{
    itype == types::EMR_EOF || itype == types::EMR_SETMAPMODE || itype == types::EMR_SETWINDOWEXTEX
        || itype == types::EMR_SETWINDOWORGEX || itype == types::EMR_SETVIEWPORTEXTEX || itype
        == types::EMR_SETVIEWPORTORGEX || itype == types::EMR_SETPOLYFILLMODE || itype
        == types::EMR_SETMITERLIMIT || itype == types::EMR_SETARCDIRECTION || itype
        == types::EMR_MOVETOEX || itype == types::EMR_SAVEDC || itype == types::EMR_RESTOREDC
        || itype == types::EMR_SETWORLDTRANSFORM || itype == types::EMR_MODIFYWORLDTRANSFORM
}

fn is_object(itype: u32) -> (b: bool)
    ensures
        b == is_object_type(itype),
{
    itype == types::EMR_CREATEPEN || itype == types::EMR_EXTCREATEPEN || itype
        == types::EMR_CREATEBRUSHINDIRECT || itype == types::EMR_SELECTOBJECT || itype
        == types::EMR_DELETEOBJECT
}

fn is_poly(itype: u32) -> (b: bool)
    ensures
        b == is_poly_type(itype),
{
    itype == types::EMR_POLYBEZIER || itype == types::EMR_POLYGON || itype == types::EMR_POLYLINE
        || itype == types::EMR_POLYBEZIERTO || itype == types::EMR_POLYLINETO || itype
        == types::EMR_POLYBEZIER16 || itype == types::EMR_POLYGON16 || itype
        == types::EMR_POLYLINE16 || itype == types::EMR_POLYBEZIERTO16 || itype
        == types::EMR_POLYLINETO16 || itype == types::EMR_POLYPOLYLINE || itype
        == types::EMR_POLYPOLYGON || itype == types::EMR_POLYPOLYLINE16 || itype
        == types::EMR_POLYPOLYGON16 || itype == types::EMR_POLYDRAW || itype
        == types::EMR_POLYDRAW16
}

fn is_shape(itype: u32) -> (b: bool)
    ensures
        b == is_shape_type(itype),
{
    itype == types::EMR_LINETO || itype == types::EMR_ANGLEARC || itype == types::EMR_ELLIPSE
        || itype == types::EMR_RECTANGLE || itype == types::EMR_ROUNDRECT || itype == types::EMR_ARC
        || itype == types::EMR_ARCTO || itype == types::EMR_CHORD || itype == types::EMR_PIE
        || itype == types::EMR_BEGINPATH || itype == types::EMR_ENDPATH || itype
        == types::EMR_CLOSEFIGURE || itype == types::EMR_ABORTPATH || itype == types::EMR_FILLPATH
        || itype == types::EMR_STROKEPATH || itype == types::EMR_STROKEANDFILLPATH
}

} // verus!

verus! {

// ---------------------------------------------------------------------------
// Files
// ---------------------------------------------------------------------------

/// Header record payload (after iType/nSize): bounds, frame, signature,
/// version, sizes, handle count, description and palette fields (ignored),
/// reference device in pixels and in millimeters. The signature is checked
/// as soon as it has been read.
pub open spec fn spec_parse_header(p: Seq<u8>) -> Result<EmfHeader, EmfError> {
    if p.len() < 36 {
        Err(field_err())
    } else if u32_at(p, 32) != types::ENHMETA_SIGNATURE {
        Err(EmfError::NotEmf)
    } else if p.len() < 80 {
        Err(field_err())
    } else {
        Ok(
            EmfHeader {
                bounds: rect_l_at(p, 0),
                frame: rect_l_at(p, 16),
                n_bytes: u32_at(p, 40),
                n_records: u32_at(p, 44),
                n_handles: crate::wire::u16_at(p, 48),
                device: size_l_at(p, 64),
                millimeters: size_l_at(p, 72),
            },
        )
    }
}

fn parse_header(payload: &[u8]) -> (r: Result<EmfHeader, EmfError>)
    ensures
        r == spec_parse_header(payload@),
{
    let mut c = Cur::new(payload);
    let bounds = c.rect_l()?;
    let frame = c.rect_l()?;
    let signature = c.u32()?;
    if signature != types::ENHMETA_SIGNATURE {
        return Err(EmfError::NotEmf);
    }
    let _version = c.u32()?;
    let n_bytes = c.u32()?;
    let n_records = c.u32()?;
    let n_handles = c.u16()?;
    let _reserved = c.u16()?;
    let _n_description = c.u32()?;
    let _off_description = c.u32()?;
    let _n_pal_entries = c.u32()?;
    let device = c.size_l()?;
    let millimeters = c.size_l()?;
    Ok(EmfHeader { bounds, frame, n_bytes, n_records, n_handles, device, millimeters })
}

/// Prepend `prefix` to a successful result.
pub open spec fn chain(prefix: Seq<RecordModel>, r: Result<Seq<RecordModel>, EmfError>) -> Result<
    Seq<RecordModel>,
    EmfError,
> {
    match r {
        Ok(rest) => Ok(prefix + rest),
        Err(e) => Err(e),
    }
}

/// The record framed at offset `off` and the frame's size: iType, nSize
/// (at least 8, a multiple of 4, within the data), then the payload.
pub open spec fn spec_frame(data: Seq<u8>, off: int) -> Result<(RecordModel, int), EmfError> {
    if data.len() - off < 8 {
        Err(EmfError::Truncated("record frame header"))
    } else {
        let itype = u32_at(data, off);
        let nsize = u32_at(data, off + 4) as int;
        if nsize < 8 || nsize % 4 != 0 {
            Err(EmfError::BadRecordSize { itype, nsize: nsize as usize })
        } else if nsize > data.len() - off {
            Err(EmfError::Truncated("record payload out of bounds"))
        } else {
            match spec_parse_record(itype, data.subrange(off + 8, off + nsize)) {
                Err(e) => Err(e),
                Ok(r) => Ok((r, nsize)),
            }
        }
    }
}

/// The records framed from offset `off` on, up to and including the first
/// EMR_EOF; running out of data before EMR_EOF is an error.
pub open spec fn spec_frames(data: Seq<u8>, off: int) -> Result<Seq<RecordModel>, EmfError>
    decreases data.len() - off,
{
    if off >= data.len() {
        Err(EmfError::Truncated("missing EMR_EOF"))
    } else {
        match spec_frame(data, off) {
            Err(e) => Err(e),
            Ok((r, n)) => if r is Eof {
                Ok(seq![r])
            } else if n >= 8 {
                chain(seq![r], spec_frames(data, off + n))
            } else {
                Err(EmfError::Truncated("record frame header"))
            },
        }
    }
}

proof fn lemma_chain_assoc(a: Seq<RecordModel>, b: Seq<RecordModel>, r: Result<Seq<RecordModel>, EmfError>)
    ensures
        chain(a, chain(b, r)) == chain(a + b, r),
{
    match r {
        Ok(rest) => {
            assert(a + (b + rest) =~= (a + b) + rest);
        },
        Err(e) => {},
    }
}

/// Parse the frame at `off`.
fn parse_frame(data: &[u8], off: usize) -> (r: Result<(EmfRecord, usize), EmfError>)
    requires
        off < data@.len(),
    ensures
        match (r, spec_frame(data@, off as int)) {
            (Ok((rec, n)), Ok((m, k))) => rec@ == m && n == k && 8 <= n <= data@.len() - off,
            (Err(e), Err(f)) => e == f,
            _ => false,
        },
{
    let len = data.len();
    if len - off < 8 {
        return Err(EmfError::Truncated("record frame header"));
    }
    let itype = read_u32(data, off);
    let nsize = read_u32(data, off + 4) as usize;
    if nsize < 8 || nsize % 4 != 0 {
        return Err(EmfError::BadRecordSize { itype, nsize });
    }
    if nsize > len - off {
        return Err(EmfError::Truncated("record payload out of bounds"));
    }
    let payload = vstd::slice::slice_subrange(data, off + 8, off + nsize);
    let rec = parse_record(itype, payload)?;
    Ok((rec, nsize))
}

/// A parsed EMF file: the header plus every following record in order.
#[derive(Debug, Clone)]
pub struct EmfFile {
    pub header: EmfHeader,
    /// All records after the header, EOF included.
    pub records: Vec<EmfRecord>,
}

/// The model of an [`EmfFile`].
pub struct EmfFileModel {
    pub header: EmfHeader,
    pub records: Seq<RecordModel>,
}

impl View for EmfFile {
    type V = EmfFileModel;

    open spec fn view(&self) -> EmfFileModel {
        EmfFileModel { header: self.header, records: records_view(self.records@) }
    }
}

/// The file an EMF byte stream denotes: at least 88 bytes, a first frame
/// that is a valid EMR_HEADER, then the records up to EMR_EOF.
pub open spec fn spec_parse_file(data: Seq<u8>) -> Result<EmfFileModel, EmfError> {
    if data.len() < 88 {
        Err(EmfError::Truncated("file smaller than EMF header"))
    } else {
        let itype = u32_at(data, 0);
        let nsize = u32_at(data, 4) as int;
        if nsize < 8 || nsize % 4 != 0 {
            Err(EmfError::BadRecordSize { itype, nsize: nsize as usize })
        } else if nsize > data.len() {
            Err(EmfError::Truncated("record payload out of bounds"))
        } else if itype != types::EMR_HEADER {
            Err(EmfError::NotEmf)
        } else {
            match spec_parse_header(data.subrange(8, nsize)) {
                Err(e) => Err(e),
                Ok(header) => match spec_frames(data, nsize) {
                    Ok(records) => Ok(EmfFileModel { header, records }),
                    Err(e) => Err(e),
                },
            }
        }
    }
}

impl EmfFile {
    /// Parse a complete EMF byte buffer.
    pub fn parse(data: &[u8]) -> (r: Result<EmfFile, EmfError>)
        ensures
            res_view(r) == spec_parse_file(data@),
    {
        let len = data.len();
        if len < 88 {
            return Err(EmfError::Truncated("file smaller than EMF header"));
        }
        let itype0 = read_u32(data, 0);
        let nsize0 = read_u32(data, 4) as usize;
        if nsize0 < 8 || nsize0 % 4 != 0 {
            return Err(EmfError::BadRecordSize { itype: itype0, nsize: nsize0 });
        }
        if nsize0 > len {
            return Err(EmfError::Truncated("record payload out of bounds"));
        }
        if itype0 != types::EMR_HEADER {
            return Err(EmfError::NotEmf);
        }
        let header = parse_header(vstd::slice::slice_subrange(data, 8, nsize0))?;
        let records = parse_frames(data, nsize0)?;
        Ok(EmfFile { header, records })
    }
}

fn is_eof(rec: &EmfRecord) -> (b: bool)
    ensures
        b == (rec@ is Eof),
{
    match rec {
        EmfRecord::Eof => true,
        _ => false,
    }
}

/// Parse the records from offset `start` up to and including EMR_EOF.
fn parse_frames(data: &[u8], start: usize) -> (r: Result<Vec<EmfRecord>, EmfError>)
    ensures
        match r {
            Ok(v) => spec_frames(data@, start as int) == Ok::<Seq<RecordModel>, EmfError>(records_view(v@)),
            Err(e) => spec_frames(data@, start as int) == Err::<Seq<RecordModel>, EmfError>(e),
        },
{
    let len = data.len();
    let mut records: Vec<EmfRecord> = Vec::new();
    let mut off = start;
    while off < len
        invariant
            len == data@.len(),
            start <= off,
            spec_frames(data@, start as int) == chain(
                records_view(records@),
                spec_frames(data@, off as int),
            ),
        decreases len - off,
    {
        let (rec, nsize) = parse_frame(data, off)?;
        let eof = is_eof(&rec);
        let ghost before = records@;
        let ghost rv = rec@;
        records.push(rec);
        assert(records_view(records@) =~= records_view(before) + seq![rv]);
        if eof {
            return Ok(records);
        }
        proof {
            lemma_chain_assoc(records_view(before), seq![rv], spec_frames(data@, (off + nsize) as int));
        }
        off = off + nsize;
    }
    Err(EmfError::Truncated("missing EMR_EOF"))
}

} // verus!
