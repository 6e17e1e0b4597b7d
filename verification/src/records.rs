//! Strongly typed EMF records relevant to vector conversion, and their
//! mathematical model.
//!
//! Records that carry no vector information (text, bitmaps, palettes, ...)
//! are preserved as [`EmfRecord::Unknown`] with their raw payload so the
//! record stream stays complete.

use vstd::prelude::*;
use crate::types::{ColorRef, PointL, RectL, SizeL, Xform, OMNI_COMMENT_MAGIC};
use crate::wire::{push_u32, read_u32, u32_at, u32_le};

verus! {

/// Parsed EMF file header (EMR_HEADER, [MS-EMF] 2.3.4.2).
#[derive(Debug, Clone, Copy, PartialEq, Eq, Structural)]
pub struct EmfHeader {
    /// Inclusive-inclusive bounds of the drawing in device units.
    pub bounds: RectL,
    /// Frame rectangle in 0.01 mm units.
    pub frame: RectL,
    pub n_bytes: u32,
    pub n_records: u32,
    pub n_handles: u16,
    /// Reference device size in pixels.
    pub device: SizeL,
    /// Reference device size in millimeters.
    pub millimeters: SizeL,
}

impl EmfHeader {
    /// Empty bounds and counts over a 1920x1080 px, 508x286 mm reference
    /// device (about 96 DPI).
    pub open spec fn spec_default() -> EmfHeader {
        EmfHeader {
            bounds: RectL { left: 0, top: 0, right: 0, bottom: 0 },
            frame: RectL { left: 0, top: 0, right: 0, bottom: 0 },
            n_bytes: 0,
            n_records: 0,
            n_handles: 0,
            device: SizeL { cx: 1920, cy: 1080 },
            millimeters: SizeL { cx: 508, cy: 286 },
        }
    }
}

impl Default for EmfHeader {
    fn default() -> (h: EmfHeader)
        ensures
            h == EmfHeader::spec_default(),
    {
        EmfHeader {
            bounds: RectL::new(0, 0, 0, 0),
            frame: RectL::new(0, 0, 0, 0),
            n_bytes: 0,
            n_records: 0,
            n_handles: 0,
            device: SizeL::new(1920, 1080),
            millimeters: SizeL::new(508, 286),
        }
    }
}

/// One EMF record. 16-bit point variants are widened to 32 bits at parse
/// time; the writer re-emits the compact 16-bit form when every coordinate
/// fits.
#[derive(Debug, Clone, PartialEq, Eq)]
pub enum EmfRecord {
    Header(EmfHeader),
    Eof,
    // --- State ---
    SetMapMode(u32),
    SetWindowExtEx(SizeL),
    SetWindowOrgEx(PointL),
    SetViewportExtEx(SizeL),
    SetViewportOrgEx(PointL),
    SetPolyfillMode(u32),
    /// Miter limit, as the bit pattern of a single-precision value.
    SetMiterLimit(u32),
    SetArcDirection(u32),
    MoveToEx(PointL),
    SaveDc,
    RestoreDc(i32),
    // --- Transform ---
    SetWorldTransform(Xform),
    ModifyWorldTransform { xform: Xform, mode: u32 },
    // --- Object management ---
    CreatePen { ih: u32, style: u32, width: i32, color: ColorRef },
    ExtCreatePen {
        ih: u32,
        style: u32,
        width: u32,
        brush_style: u32,
        color: ColorRef,
        hatch: u32,
        style_entries: Vec<u32>,
    },
    CreateBrushIndirect { ih: u32, style: u32, color: ColorRef, hatch: u32 },
    SelectObject(u32),
    DeleteObject(u32),
    // --- Drawing ---
    Polybezier(Vec<PointL>),
    Polygon(Vec<PointL>),
    Polyline(Vec<PointL>),
    PolybezierTo(Vec<PointL>),
    PolylineTo(Vec<PointL>),
    Polypolyline { counts: Vec<u32>, pts: Vec<PointL> },
    Polypolygon { counts: Vec<u32>, pts: Vec<PointL> },
    PolyDraw { pts: Vec<PointL>, types: Vec<u8> },
    LineTo(PointL),
    /// Angles are bit patterns of single-precision values (degrees).
    AngleArc { center: PointL, radius: u32, start_angle: u32, sweep_angle: u32 },
    Ellipse(RectL),
    Rectangle(RectL),
    RoundRect { rect: RectL, corner: SizeL },
    Arc { rect: RectL, start: PointL, end: PointL },
    ArcTo { rect: RectL, start: PointL, end: PointL },
    Chord { rect: RectL, start: PointL, end: PointL },
    Pie { rect: RectL, start: PointL, end: PointL },
    // --- Path bracket ---
    BeginPath,
    EndPath,
    CloseFigure,
    AbortPath,
    FillPath(RectL),
    StrokePath(RectL),
    StrokeAndFillPath(RectL),
    /// EMR_COMMENT payload (all bytes after the `cbData` length field). Used
    /// for embedded EMF+ streams and the byte-lossless source metadata.
    Comment(Vec<u8>),
    /// Any record not modelled here (text, bitmaps, clipping, ...).
    /// `data` is the payload after iType/nSize.
    Unknown { itype: u32, data: Vec<u8> },
}

/// The mathematical model of an [`EmfRecord`]: the same record with its
/// variable-length parts as sequences.
pub enum RecordModel {
    Header(EmfHeader),
    Eof,
    SetMapMode(u32),
    SetWindowExtEx(SizeL),
    SetWindowOrgEx(PointL),
    SetViewportExtEx(SizeL),
    SetViewportOrgEx(PointL),
    SetPolyfillMode(u32),
    SetMiterLimit(u32),
    SetArcDirection(u32),
    MoveToEx(PointL),
    SaveDc,
    RestoreDc(i32),
    SetWorldTransform(Xform),
    ModifyWorldTransform { xform: Xform, mode: u32 },
    CreatePen { ih: u32, style: u32, width: i32, color: ColorRef },
    ExtCreatePen {
        ih: u32,
        style: u32,
        width: u32,
        brush_style: u32,
        color: ColorRef,
        hatch: u32,
        style_entries: Seq<u32>,
    },
    CreateBrushIndirect { ih: u32, style: u32, color: ColorRef, hatch: u32 },
    SelectObject(u32),
    DeleteObject(u32),
    Polybezier(Seq<PointL>),
    Polygon(Seq<PointL>),
    Polyline(Seq<PointL>),
    PolybezierTo(Seq<PointL>),
    PolylineTo(Seq<PointL>),
    Polypolyline { counts: Seq<u32>, pts: Seq<PointL> },
    Polypolygon { counts: Seq<u32>, pts: Seq<PointL> },
    PolyDraw { pts: Seq<PointL>, types: Seq<u8> },
    LineTo(PointL),
    AngleArc { center: PointL, radius: u32, start_angle: u32, sweep_angle: u32 },
    Ellipse(RectL),
    Rectangle(RectL),
    RoundRect { rect: RectL, corner: SizeL },
    Arc { rect: RectL, start: PointL, end: PointL },
    ArcTo { rect: RectL, start: PointL, end: PointL },
    Chord { rect: RectL, start: PointL, end: PointL },
    Pie { rect: RectL, start: PointL, end: PointL },
    BeginPath,
    EndPath,
    CloseFigure,
    AbortPath,
    FillPath(RectL),
    StrokePath(RectL),
    StrokeAndFillPath(RectL),
    Comment(Seq<u8>),
    Unknown { itype: u32, data: Seq<u8> },
}

impl View for EmfRecord {
    type V = RecordModel;

    open spec fn view(&self) -> RecordModel {
        match self {
            EmfRecord::Header(h) => RecordModel::Header(*h),
            EmfRecord::Eof => RecordModel::Eof,
            EmfRecord::SetMapMode(v) => RecordModel::SetMapMode(*v),
            EmfRecord::SetWindowExtEx(s) => RecordModel::SetWindowExtEx(*s),
            EmfRecord::SetWindowOrgEx(p) => RecordModel::SetWindowOrgEx(*p),
            EmfRecord::SetViewportExtEx(s) => RecordModel::SetViewportExtEx(*s),
            EmfRecord::SetViewportOrgEx(p) => RecordModel::SetViewportOrgEx(*p),
            EmfRecord::SetPolyfillMode(v) => RecordModel::SetPolyfillMode(*v),
            EmfRecord::SetMiterLimit(v) => RecordModel::SetMiterLimit(*v),
            EmfRecord::SetArcDirection(v) => RecordModel::SetArcDirection(*v),
            EmfRecord::MoveToEx(p) => RecordModel::MoveToEx(*p),
            EmfRecord::SaveDc => RecordModel::SaveDc,
            EmfRecord::RestoreDc(v) => RecordModel::RestoreDc(*v),
            EmfRecord::SetWorldTransform(x) => RecordModel::SetWorldTransform(*x),
            EmfRecord::ModifyWorldTransform { xform, mode } => RecordModel::ModifyWorldTransform {
                xform: *xform,
                mode: *mode,
            },
            EmfRecord::CreatePen { ih, style, width, color } => RecordModel::CreatePen {
                ih: *ih,
                style: *style,
                width: *width,
                color: *color,
            },
            EmfRecord::ExtCreatePen {
                ih,
                style,
                width,
                brush_style,
                color,
                hatch,
                style_entries,
            } => RecordModel::ExtCreatePen {
                ih: *ih,
                style: *style,
                width: *width,
                brush_style: *brush_style,
                color: *color,
                hatch: *hatch,
                style_entries: style_entries@,
            },
            EmfRecord::CreateBrushIndirect { ih, style, color, hatch } =>
                RecordModel::CreateBrushIndirect {
                ih: *ih,
                style: *style,
                color: *color,
                hatch: *hatch,
            },
            EmfRecord::SelectObject(v) => RecordModel::SelectObject(*v),
            EmfRecord::DeleteObject(v) => RecordModel::DeleteObject(*v),
            EmfRecord::Polybezier(p) => RecordModel::Polybezier(p@),
            EmfRecord::Polygon(p) => RecordModel::Polygon(p@),
            EmfRecord::Polyline(p) => RecordModel::Polyline(p@),
            EmfRecord::PolybezierTo(p) => RecordModel::PolybezierTo(p@),
            EmfRecord::PolylineTo(p) => RecordModel::PolylineTo(p@),
            EmfRecord::Polypolyline { counts, pts } => RecordModel::Polypolyline {
                counts: counts@,
                pts: pts@,
            },
            EmfRecord::Polypolygon { counts, pts } => RecordModel::Polypolygon {
                counts: counts@,
                pts: pts@,
            },
            EmfRecord::PolyDraw { pts, types } => RecordModel::PolyDraw {
                pts: pts@,
                types: types@,
            },
            EmfRecord::LineTo(p) => RecordModel::LineTo(*p),
            EmfRecord::AngleArc { center, radius, start_angle, sweep_angle } =>
                RecordModel::AngleArc {
                center: *center,
                radius: *radius,
                start_angle: *start_angle,
                sweep_angle: *sweep_angle,
            },
            EmfRecord::Ellipse(r) => RecordModel::Ellipse(*r),
            EmfRecord::Rectangle(r) => RecordModel::Rectangle(*r),
            EmfRecord::RoundRect { rect, corner } => RecordModel::RoundRect {
                rect: *rect,
                corner: *corner,
            },
            EmfRecord::Arc { rect, start, end } => RecordModel::Arc {
                rect: *rect,
                start: *start,
                end: *end,
            },
            EmfRecord::ArcTo { rect, start, end } => RecordModel::ArcTo {
                rect: *rect,
                start: *start,
                end: *end,
            },
            EmfRecord::Chord { rect, start, end } => RecordModel::Chord {
                rect: *rect,
                start: *start,
                end: *end,
            },
            EmfRecord::Pie { rect, start, end } => RecordModel::Pie {
                rect: *rect,
                start: *start,
                end: *end,
            },
            EmfRecord::BeginPath => RecordModel::BeginPath,
            EmfRecord::EndPath => RecordModel::EndPath,
            EmfRecord::CloseFigure => RecordModel::CloseFigure,
            EmfRecord::AbortPath => RecordModel::AbortPath,
            EmfRecord::FillPath(r) => RecordModel::FillPath(*r),
            EmfRecord::StrokePath(r) => RecordModel::StrokePath(*r),
            EmfRecord::StrokeAndFillPath(r) => RecordModel::StrokeAndFillPath(*r),
            EmfRecord::Comment(d) => RecordModel::Comment(d@),
            EmfRecord::Unknown { itype, data } => RecordModel::Unknown {
                itype: *itype,
                data: data@,
            },
        }
    }
}

/// The models of a list of records.
pub open spec fn records_view(rs: Seq<EmfRecord>) -> Seq<RecordModel> {
    rs.map_values(|r: EmfRecord| r@)
}

/// Payload of an OMNI private comment: magic, kind, then the payload bytes.
pub open spec fn omni_comment_data(kind: u32, payload: Seq<u8>) -> Seq<u8> {
    u32_le(OMNI_COMMENT_MAGIC) + u32_le(kind) + payload
}

/// The `(kind, payload)` carried by a record, if it is an OMNI private
/// comment: a comment of at least 8 bytes starting with the OMNI magic.
pub open spec fn omni_payload_of(r: RecordModel) -> Option<(u32, Seq<u8>)> {
    match r {
        RecordModel::Comment(d) => if d.len() >= 8 && u32_at(d, 0) == OMNI_COMMENT_MAGIC {
            Some((u32_at(d, 4), d.subrange(8, d.len() as int)))
        } else {
            None
        },
        _ => None,
    }
}

/// The record type's name as printed in diagnostics (`EMR_UNKNOWN` for
/// records kept verbatim).
pub open spec fn record_type_name(r: RecordModel) -> Seq<char> {
    match r {
        RecordModel::Header(_) => "EMR_HEADER"@,
        RecordModel::Eof => "EMR_EOF"@,
        RecordModel::SetMapMode(_) => "EMR_SETMAPMODE"@,
        RecordModel::SetWindowExtEx(_) => "EMR_SETWINDOWEXTEX"@,
        RecordModel::SetWindowOrgEx(_) => "EMR_SETWINDOWORGEX"@,
        RecordModel::SetViewportExtEx(_) => "EMR_SETVIEWPORTEXTEX"@,
        RecordModel::SetViewportOrgEx(_) => "EMR_SETVIEWPORTORGEX"@,
        RecordModel::SetPolyfillMode(_) => "EMR_SETPOLYFILLMODE"@,
        RecordModel::SetMiterLimit(_) => "EMR_SETMITERLIMIT"@,
        RecordModel::SetArcDirection(_) => "EMR_SETARCDIRECTION"@,
        RecordModel::MoveToEx(_) => "EMR_MOVETOEX"@,
        RecordModel::SaveDc => "EMR_SAVEDC"@,
        RecordModel::RestoreDc(_) => "EMR_RESTOREDC"@,
        RecordModel::SetWorldTransform(_) => "EMR_SETWORLDTRANSFORM"@,
        RecordModel::ModifyWorldTransform{ .. } => "EMR_MODIFYWORLDTRANSFORM"@,
        RecordModel::CreatePen{ .. } => "EMR_CREATEPEN"@,
        RecordModel::ExtCreatePen{ .. } => "EMR_EXTCREATEPEN"@,
        RecordModel::CreateBrushIndirect{ .. } => "EMR_CREATEBRUSHINDIRECT"@,
        RecordModel::SelectObject(_) => "EMR_SELECTOBJECT"@,
        RecordModel::DeleteObject(_) => "EMR_DELETEOBJECT"@,
        RecordModel::Polybezier(_) => "EMR_POLYBEZIER"@,
        RecordModel::Polygon(_) => "EMR_POLYGON"@,
        RecordModel::Polyline(_) => "EMR_POLYLINE"@,
        RecordModel::PolybezierTo(_) => "EMR_POLYBEZIERTO"@,
        RecordModel::PolylineTo(_) => "EMR_POLYLINETO"@,
        RecordModel::Polypolyline{ .. } => "EMR_POLYPOLYLINE"@,
        RecordModel::Polypolygon{ .. } => "EMR_POLYPOLYGON"@,
        RecordModel::PolyDraw{ .. } => "EMR_POLYDRAW"@,
        RecordModel::LineTo(_) => "EMR_LINETO"@,
        RecordModel::AngleArc{ .. } => "EMR_ANGLEARC"@,
        RecordModel::Ellipse(_) => "EMR_ELLIPSE"@,
        RecordModel::Rectangle(_) => "EMR_RECTANGLE"@,
        RecordModel::RoundRect{ .. } => "EMR_ROUNDRECT"@,
        RecordModel::Arc{ .. } => "EMR_ARC"@,
        RecordModel::ArcTo{ .. } => "EMR_ARCTO"@,
        RecordModel::Chord{ .. } => "EMR_CHORD"@,
        RecordModel::Pie{ .. } => "EMR_PIE"@,
        RecordModel::BeginPath => "EMR_BEGINPATH"@,
        RecordModel::EndPath => "EMR_ENDPATH"@,
        RecordModel::CloseFigure => "EMR_CLOSEFIGURE"@,
        RecordModel::AbortPath => "EMR_ABORTPATH"@,
        RecordModel::FillPath(_) => "EMR_FILLPATH"@,
        RecordModel::StrokePath(_) => "EMR_STROKEPATH"@,
        RecordModel::StrokeAndFillPath(_) => "EMR_STROKEANDFILLPATH"@,
        RecordModel::Comment(_) => "EMR_COMMENT"@,
        RecordModel::Unknown{ .. } => "EMR_UNKNOWN"@,
    }
}

impl EmfRecord {
    /// Short name for diagnostics.
    pub fn kind_name(&self) -> (s: &'static str)
        ensures
            s@ == record_type_name(self@),
    {
        match self {
            EmfRecord::Header(_) => "EMR_HEADER",
            EmfRecord::Eof => "EMR_EOF",
            EmfRecord::SetMapMode(_) => "EMR_SETMAPMODE",
            EmfRecord::SetWindowExtEx(_) => "EMR_SETWINDOWEXTEX",
            EmfRecord::SetWindowOrgEx(_) => "EMR_SETWINDOWORGEX",
            EmfRecord::SetViewportExtEx(_) => "EMR_SETVIEWPORTEXTEX",
            EmfRecord::SetViewportOrgEx(_) => "EMR_SETVIEWPORTORGEX",
            EmfRecord::SetPolyfillMode(_) => "EMR_SETPOLYFILLMODE",
            EmfRecord::SetMiterLimit(_) => "EMR_SETMITERLIMIT",
            EmfRecord::SetArcDirection(_) => "EMR_SETARCDIRECTION",
            EmfRecord::MoveToEx(_) => "EMR_MOVETOEX",
            EmfRecord::SaveDc => "EMR_SAVEDC",
            EmfRecord::RestoreDc(_) => "EMR_RESTOREDC",
            EmfRecord::SetWorldTransform(_) => "EMR_SETWORLDTRANSFORM",
            EmfRecord::ModifyWorldTransform{ .. } => "EMR_MODIFYWORLDTRANSFORM",
            EmfRecord::CreatePen{ .. } => "EMR_CREATEPEN",
            EmfRecord::ExtCreatePen{ .. } => "EMR_EXTCREATEPEN",
            EmfRecord::CreateBrushIndirect{ .. } => "EMR_CREATEBRUSHINDIRECT",
            EmfRecord::SelectObject(_) => "EMR_SELECTOBJECT",
            EmfRecord::DeleteObject(_) => "EMR_DELETEOBJECT",
            EmfRecord::Polybezier(_) => "EMR_POLYBEZIER",
            EmfRecord::Polygon(_) => "EMR_POLYGON",
            EmfRecord::Polyline(_) => "EMR_POLYLINE",
            EmfRecord::PolybezierTo(_) => "EMR_POLYBEZIERTO",
            EmfRecord::PolylineTo(_) => "EMR_POLYLINETO",
            EmfRecord::Polypolyline{ .. } => "EMR_POLYPOLYLINE",
            EmfRecord::Polypolygon{ .. } => "EMR_POLYPOLYGON",
            EmfRecord::PolyDraw{ .. } => "EMR_POLYDRAW",
            EmfRecord::LineTo(_) => "EMR_LINETO",
            EmfRecord::AngleArc{ .. } => "EMR_ANGLEARC",
            EmfRecord::Ellipse(_) => "EMR_ELLIPSE",
            EmfRecord::Rectangle(_) => "EMR_RECTANGLE",
            EmfRecord::RoundRect{ .. } => "EMR_ROUNDRECT",
            EmfRecord::Arc{ .. } => "EMR_ARC",
            EmfRecord::ArcTo{ .. } => "EMR_ARCTO",
            EmfRecord::Chord{ .. } => "EMR_CHORD",
            EmfRecord::Pie{ .. } => "EMR_PIE",
            EmfRecord::BeginPath => "EMR_BEGINPATH",
            EmfRecord::EndPath => "EMR_ENDPATH",
            EmfRecord::CloseFigure => "EMR_CLOSEFIGURE",
            EmfRecord::AbortPath => "EMR_ABORTPATH",
            EmfRecord::FillPath(_) => "EMR_FILLPATH",
            EmfRecord::StrokePath(_) => "EMR_STROKEPATH",
            EmfRecord::StrokeAndFillPath(_) => "EMR_STROKEANDFILLPATH",
            EmfRecord::Comment(_) => "EMR_COMMENT",
            EmfRecord::Unknown{ .. } => "EMR_UNKNOWN",
        }
    }

    /// Build an EMR_COMMENT carrying a private OMNI payload of the given kind.
    /// Layout: `[magic u32][kind u32][payload...]`.
    pub fn omni_comment(kind: u32, payload: &[u8]) -> (r: EmfRecord)
        ensures
            r@ == RecordModel::Comment(omni_comment_data(kind, payload@)),
    {
        let mut data: Vec<u8> = Vec::new();
        push_u32(&mut data, OMNI_COMMENT_MAGIC);
        push_u32(&mut data, kind);
        let mut i: usize = 0;
        while i < payload.len()
            invariant
                i <= payload@.len(),
                data@ == u32_le(OMNI_COMMENT_MAGIC) + u32_le(kind) + payload@.subrange(0, i as int),
            decreases payload@.len() - i,
        {
            data.push(payload[i]);
            i = i + 1;
            assert(data@ =~= u32_le(OMNI_COMMENT_MAGIC) + u32_le(kind) + payload@.subrange(0, i as int));
        }
        assert(payload@.subrange(0, payload@.len() as int) =~= payload@);
        EmfRecord::Comment(data)
    }

    /// If this record is an OMNI private comment, return `(kind, payload)`.
    pub fn as_omni_payload(&self) -> (r: Option<(u32, &[u8])>)
        ensures
            match (r, omni_payload_of(self@)) {
                (Some((k, p)), Some((k2, p2))) => k == k2 && p@ == p2,
                (None, None) => true,
                _ => false,
            },
    {
        match self {
            EmfRecord::Comment(data) => {
                if data.len() < 8 {
                    return None;
                }
                let magic = read_u32(data.as_slice(), 0);
                if magic != OMNI_COMMENT_MAGIC {
                    return None;
                }
                let kind = read_u32(data.as_slice(), 4);
                let rest = vstd::slice::slice_subrange(data.as_slice(), 8, data.len());
                Some((kind, rest))
            },
            _ => None,
        }
    }
}

} // verus!
