//! GDI decisions made while playing an EMF record stream back: which pen a
//! pen style describes, what a stock object selects, how point-list records
//! become path commands, and what the records kept verbatim mean.
//!
//! Coordinates stay in integer logical units here; mapping them to device
//! space is the player's business.

use vstd::prelude::*;
use crate::style::{LineCap, LineJoin, Rgb};
use crate::wire::{i32_at, u16_at, u32_at};
use crate::text::{
    parse_font, parse_text_out, spec_font, spec_text_out, FontSpec, TextOut,
    EMR_EXTCREATEFONTINDIRECTW, EMR_EXTTEXTOUTA, EMR_EXTTEXTOUTW,
};
use crate::types::{
    ColorRef, PointL, RectL, BLACK_BRUSH, BLACK_PEN, BS_NULL, DKGRAY_BRUSH, GRAY_BRUSH,
    LTGRAY_BRUSH, NULL_BRUSH, NULL_PEN, PS_COSMETIC, PS_DASH, PS_DASHDOT, PS_DASHDOTDOT, PS_DOT,
    PS_ENDCAP_FLAT, PS_ENDCAP_MASK, PS_ENDCAP_ROUND, PS_ENDCAP_SQUARE, PS_GEOMETRIC, PS_JOIN_BEVEL,
    PS_JOIN_MASK, PS_JOIN_MITER, PS_JOIN_ROUND, PS_SOLID,
    PS_NULL, PS_STYLE_MASK, PS_TYPE_MASK, PS_USERSTYLE, PT_BEZIERTO, PT_CLOSEFIGURE, PT_LINETO,
    PT_MOVETO, STOCK_OBJECT_FLAG, WHITE_BRUSH, WHITE_PEN,
};

verus! {

// ---------------------------------------------------------------------------
// Pens and brushes
// ---------------------------------------------------------------------------

/// Pen definition as stored in the object table / device context. Widths
/// and dash lengths are in whole logical units.
#[derive(Debug, Clone, PartialEq, Eq)]
pub struct PenSpec {
    pub color: Rgb,
    /// Width in logical units (geometric pens); at least 1.
    pub width: u32,
    /// Cosmetic pens are always one device pixel wide.
    pub cosmetic: bool,
    pub dash: Option<Vec<u64>>,
    pub cap: LineCap,
    pub join: LineJoin,
}

/// The model of a pen: its dash pattern as a sequence.
pub struct PenModel {
    pub color: Rgb,
    pub width: u32,
    pub cosmetic: bool,
    pub dash: Option<Seq<u64>>,
    pub cap: LineCap,
    pub join: LineJoin,
}

impl View for PenSpec {
    type V = PenModel;

    open spec fn view(&self) -> PenModel {
        PenModel {
            color: self.color,
            width: self.width,
            cosmetic: self.cosmetic,
            dash: match self.dash {
                Some(d) => Some(d@),
                None => None,
            },
            cap: self.cap,
            join: self.join,
        }
    }
}

/// The model of an optional pen (`None`: the null pen).
pub open spec fn pen_model(p: Option<PenSpec>) -> Option<PenModel> {
    match p {
        Some(q) => Some(q@),
        None => None,
    }
}

impl PenSpec {
    /// A copy of this pen.
    pub fn duplicate(&self) -> (q: PenSpec)
        ensures
            q@ == self@,
    {
        let dash = match &self.dash {
            Some(d) => {
                let c = d.clone();
                assert(c@ =~= d@);
                Some(c)
            },
            None => None,
        };
        PenSpec {
            color: self.color,
            width: self.width,
            cosmetic: self.cosmetic,
            dash,
            cap: self.cap,
            join: self.join,
        }
    }
}

/// The dash lengths a pen style gives for width `w`: dash 3w/3w, dot w/w,
/// dash-dot 3w/w/w/w, dash-dot-dot 3w/w/w/w/w/w, the user style's entries
/// when it has some; `None` (solid) otherwise.
pub open spec fn spec_dash(base: u32, w: u64, entries: Seq<u32>) -> Option<Seq<u64>> {
    let w3 = (3 * w) as u64;
    if base == PS_DASH {
        Some(seq![w3, w3])
    } else if base == PS_DOT {
        Some(seq![w, w])
    } else if base == PS_DASHDOT {
        Some(seq![w3, w, w, w])
    } else if base == PS_DASHDOTDOT {
        Some(seq![w3, w, w, w, w, w])
    } else if base == PS_USERSTYLE && entries.len() > 0 {
        Some(entries.map_values(|e: u32| e as u64))
    } else {
        None
    }
}

fn dash_pattern(base: u32, w: u64, entries: &[u32]) -> (r: Option<Vec<u64>>)
    requires
        w <= u32::MAX,
    ensures
        match spec_dash(base, w, entries@) {
            Some(d) => r matches Some(v) && v@ == d,
            None => r is None,
        },
{
    if base == PS_DASH {
        Some(vec![w * 3, w * 3])
    } else if base == PS_DOT {
        Some(vec![w, w])
    } else if base == PS_DASHDOT {
        Some(vec![w * 3, w, w, w])
    } else if base == PS_DASHDOTDOT {
        Some(vec![w * 3, w, w, w, w, w])
    } else if base == PS_USERSTYLE && entries.len() > 0 {
        let mut v: Vec<u64> = Vec::new();
        let mut i: usize = 0;
        while i < entries.len()
            invariant
                i <= entries@.len(),
                v@ == entries@.subrange(0, i as int).map_values(|e: u32| e as u64),
            decreases entries@.len() - i,
        {
            v.push(entries[i] as u64);
            i = i + 1;
            assert(v@ =~= entries@.subrange(0, i as int).map_values(|e: u32| e as u64));
        }
        assert(entries@.subrange(0, entries@.len() as int) =~= entries@);
        Some(v)
    } else {
        None
    }
}

/// The dash pattern of a pen, by its style, for pen width `w`: each
/// predefined broken style alternates marks and gaps, one mark for dash and
/// dot, two for dash-dot, three for dash-dot-dot; it opens with a mark of
/// `3w` (`w` for dot) and every later length is `w`, except in the dash
/// style, whose gap is as long as its dash (`3w`). A user style with entries
/// uses them; every other style is solid.
pub proof fn lemma_dash_by_style(
    p: PenSpec,
    style: u32,
    width: u32,
    color: ColorRef,
    ext: bool,
    entries: Seq<u32>,
)
    requires
        pen_matches(p, style, width, color, ext, entries),
    ensures
        ({
            let base = style & PS_STYLE_MASK;
            let w: u64 = if width < 1 {
                1
            } else {
                width as u64
            };
            let marks: int = if base == PS_DASH || base == PS_DOT {
                1
            } else if base == PS_DASHDOT {
                2
            } else {
                3
            };
            &&& (base == PS_DASH || base == PS_DOT || base == PS_DASHDOT || base == PS_DASHDOTDOT)
                ==> (p.dash matches Some(d) && d@.len() == 2 * marks && d@[0] == (if base
                == PS_DOT {
                w as int
            } else {
                3 * w
            }) && (forall|k: int| 1 <= k < d@.len() ==> #[trigger] d@[k] == (if base == PS_DASH {
                3 * w
            } else {
                w as int
            })))
            &&& base == PS_USERSTYLE && entries.len() > 0 ==> (p.dash matches Some(d) && d@.len()
                == entries.len() && forall|k: int| 0 <= k < entries.len() ==> #[trigger] d@[k]
                == entries[k])
            &&& base != PS_DASH && base != PS_DOT && base != PS_DASHDOT && base != PS_DASHDOTDOT
                && !(base == PS_USERSTYLE && entries.len() > 0) ==> p.dash is None
        }),
{
    let base = style & PS_STYLE_MASK;
    let w: u64 = if width < 1 {
        1
    } else {
        width as u64
    };
    let w32: u32 = if width < 1 {
        1
    } else {
        width
    };
    assert(w32 as u64 == w);
    assert(((3 * w) as u64) == 3 * w);
    if let Some(d) = p.dash {
        let e = spec_dash(base, w32 as u64, entries);
        assert(e matches Some(x) && d@ == x);
        if base == PS_DASH || base == PS_DOT || base == PS_DASHDOT || base == PS_DASHDOTDOT {
            assert forall|k: int| 1 <= k < d@.len() implies #[trigger] d@[k] == (if base == PS_DASH {
                3 * w
            } else {
                w as int
            }) by {
                if base == PS_DASHDOTDOT {
                    assert(k == 1 || k == 2 || k == 3 || k == 4 || k == 5);
                } else if base == PS_DASHDOT {
                    assert(k == 1 || k == 2 || k == 3);
                }
            }
        }
    }
}

/// A pen's cap and join follow its style's bits: square and flat end caps
/// as named, round otherwise; bevel and miter joins as named, round
/// otherwise. Its width is at least 1, and a plain pen of width 0 is
/// cosmetic.
pub proof fn lemma_pen_cap_join(
    p: PenSpec,
    style: u32,
    width: u32,
    color: ColorRef,
    ext: bool,
    entries: Seq<u32>,
)
    requires
        pen_matches(p, style, width, color, ext, entries),
    ensures
        p.cap == LineCap::Square <==> style & PS_ENDCAP_MASK == PS_ENDCAP_SQUARE,
        p.cap == LineCap::Flat <==> style & PS_ENDCAP_MASK == PS_ENDCAP_FLAT,
        p.join == LineJoin::Bevel <==> style & PS_JOIN_MASK == PS_JOIN_BEVEL,
        p.join == LineJoin::Miter <==> style & PS_JOIN_MASK == PS_JOIN_MITER,
        p.width >= 1,
        width >= 1 ==> p.width == width,
        !ext && width == 0 ==> p.cosmetic,
        p.color.r == color.r && p.color.g == color.g && p.color.b == color.b,
{
}

/// The line cap a pen style's end-cap bits select.
pub open spec fn spec_cap(style: u32) -> LineCap {
    if style & PS_ENDCAP_MASK == PS_ENDCAP_SQUARE {
        LineCap::Square
    } else if style & PS_ENDCAP_MASK == PS_ENDCAP_FLAT {
        LineCap::Flat
    } else {
        LineCap::Round
    }
}

/// The line join a pen style's join bits select.
pub open spec fn spec_join(style: u32) -> LineJoin {
    if style & PS_JOIN_MASK == PS_JOIN_BEVEL {
        LineJoin::Bevel
    } else if style & PS_JOIN_MASK == PS_JOIN_MITER {
        LineJoin::Miter
    } else {
        LineJoin::Round
    }
}

/// The pen a pen definition describes: `None` for the null style; otherwise
/// its color, its width (at least 1), whether it is cosmetic (the type bits
/// of an extended pen, a zero width for a plain one), its dash pattern, cap
/// and join.
pub open spec fn pen_matches(
    p: PenSpec,
    style: u32,
    width: u32,
    color: ColorRef,
    ext: bool,
    entries: Seq<u32>,
) -> bool {
    let w: u32 = if width < 1 {
        1
    } else {
        width
    };
    &&& p.color == (Rgb { r: color.r, g: color.g, b: color.b })
    &&& p.width == w
    &&& p.cosmetic == if ext {
        style & PS_TYPE_MASK == PS_COSMETIC
    } else {
        width == 0
    }
    &&& match (p.dash, spec_dash(style & PS_STYLE_MASK, w as u64, entries)) {
        (Some(d), Some(e)) => d@ == e,
        (None, None) => true,
        _ => false,
    }
    &&& p.cap == spec_cap(style)
    &&& p.join == spec_join(style)
}

/// The style of the geometric pen an emitter writes for a stroke: the
/// end-cap and join bits of its cap and join, and a user-defined dash style
/// when it is dashed (solid otherwise).
pub open spec fn spec_pen_style(cap: LineCap, join: LineJoin, dashed: bool) -> u32 {
    let c = match cap {
        LineCap::Round => PS_ENDCAP_ROUND,
        LineCap::Square => PS_ENDCAP_SQUARE,
        LineCap::Flat => PS_ENDCAP_FLAT,
    };
    let j = match join {
        LineJoin::Round => PS_JOIN_ROUND,
        LineJoin::Bevel => PS_JOIN_BEVEL,
        LineJoin::Miter => PS_JOIN_MITER,
    };
    PS_GEOMETRIC | c | j | (if dashed {
        PS_USERSTYLE
    } else {
        PS_SOLID
    })
}

/// The style of the geometric pen for a stroke.
pub fn pen_style(cap: LineCap, join: LineJoin, dashed: bool) -> (s: u32)
    ensures
        s == spec_pen_style(cap, join, dashed),
{
    let c = match cap {
        LineCap::Round => PS_ENDCAP_ROUND,
        LineCap::Square => PS_ENDCAP_SQUARE,
        LineCap::Flat => PS_ENDCAP_FLAT,
    };
    let j = match join {
        LineJoin::Round => PS_JOIN_ROUND,
        LineJoin::Bevel => PS_JOIN_BEVEL,
        LineJoin::Miter => PS_JOIN_MITER,
    };
    PS_GEOMETRIC | c | j | (if dashed {
        PS_USERSTYLE
    } else {
        PS_SOLID
    })
}

/// A pen style written for a stroke reads back with the stroke's cap and
/// join, as a geometric pen, dashed by its entries exactly when dashed.
pub proof fn lemma_pen_style_reads_back(cap: LineCap, join: LineJoin, dashed: bool)
    ensures
        spec_cap(spec_pen_style(cap, join, dashed)) == cap,
        spec_join(spec_pen_style(cap, join, dashed)) == join,
        spec_pen_style(cap, join, dashed) & PS_TYPE_MASK != PS_COSMETIC,
        spec_pen_style(cap, join, dashed) & PS_STYLE_MASK == if dashed {
            PS_USERSTYLE
        } else {
            PS_SOLID
        },
{
    let c = match cap {
        LineCap::Round => PS_ENDCAP_ROUND,
        LineCap::Square => PS_ENDCAP_SQUARE,
        LineCap::Flat => PS_ENDCAP_FLAT,
    };
    let j = match join {
        LineJoin::Round => PS_JOIN_ROUND,
        LineJoin::Bevel => PS_JOIN_BEVEL,
        LineJoin::Miter => PS_JOIN_MITER,
    };
    let d = if dashed {
        PS_USERSTYLE
    } else {
        PS_SOLID
    };
    assert(spec_pen_style(cap, join, dashed) == 0x10000u32 | c | j | d);
    lemma_style_fields(c, j, d);
}

proof fn lemma_style_fields(c: u32, j: u32, d: u32)
    by (bit_vector)
    requires
        c == 0 || c == 0x100 || c == 0x200,
        j == 0 || j == 0x1000 || j == 0x2000,
        d == 0 || d == 7,
    ensures
        (0x10000u32 | c | j | d) & 0xF00u32 == c,
        (0x10000u32 | c | j | d) & 0xF000u32 == j,
        (0x10000u32 | c | j | d) & 0xF0000u32 != 0,
        (0x10000u32 | c | j | d) & 0xFu32 == d,
{
}

/// Build the pen a CREATEPEN (`ext` false) or EXTCREATEPEN (`ext` true)
/// record defines.
pub fn build_pen(style: u32, width: u32, color: ColorRef, ext: bool, entries: &[u32]) -> (r: Option<
    PenSpec,
>)
    ensures
        style & PS_STYLE_MASK == PS_NULL ==> r is None,
        style & PS_STYLE_MASK != PS_NULL ==> (r matches Some(p) && pen_matches(
            p,
            style,
            width,
            color,
            ext,
            entries@,
        )),
{
    let base = style & PS_STYLE_MASK;
    if base == PS_NULL {
        return None;
    }
    let cosmetic = if ext {
        (style & PS_TYPE_MASK) == PS_COSMETIC
    } else {
        width == 0
    };
    let cap = if style & PS_ENDCAP_MASK == PS_ENDCAP_SQUARE {
        LineCap::Square
    } else if style & PS_ENDCAP_MASK == PS_ENDCAP_FLAT {
        LineCap::Flat
    } else {
        LineCap::Round
    };
    let join = if style & PS_JOIN_MASK == PS_JOIN_BEVEL {
        LineJoin::Bevel
    } else if style & PS_JOIN_MASK == PS_JOIN_MITER {
        LineJoin::Miter
    } else {
        LineJoin::Round
    };
    let w = if width < 1 {
        1
    } else {
        width
    };
    let dash = dash_pattern(base, w as u64, entries);
    Some(PenSpec { color: Rgb::new(color.r, color.g, color.b), width: w, cosmetic, dash, cap, join })
}

/// A cosmetic, solid, round-capped and round-joined pen of the given color.
pub open spec fn is_cosmetic_pen(p: PenSpec, color: Rgb) -> bool {
    &&& p.color == color
    &&& p.width == 1
    &&& p.cosmetic
    &&& p.dash is None
    &&& p.cap == LineCap::Round
    &&& p.join == LineJoin::Round
}

pub fn cosmetic_pen(color: Rgb) -> (p: PenSpec)
    ensures
        is_cosmetic_pen(p, color),
{
    PenSpec {
        color,
        width: 1,
        cosmetic: true,
        dash: None,
        cap: LineCap::Round,
        join: LineJoin::Round,
    }
}

/// The brush a CREATEBRUSHINDIRECT record defines: none for the null
/// style, its solid color otherwise.
pub fn brush_of(style: u32, color: ColorRef) -> (r: Option<Rgb>)
    ensures
        r == (if style == BS_NULL {
            None
        } else {
            Some(Rgb { r: color.r, g: color.g, b: color.b })
        }),
{
    if style == BS_NULL {
        None
    } else {
        Some(Rgb::new(color.r, color.g, color.b))
    }
}

/// What selecting a stock object does.
#[derive(Debug, Clone, PartialEq, Eq)]
pub enum StockSelection {
    /// Not a stock object: look the handle up in the object table.
    NotStock,
    /// Select this brush (`None`: the null brush).
    Brush(Option<Rgb>),
    /// Select this pen (`None`: the null pen).
    Pen(Option<PenSpec>),
    /// A stock object without vector meaning: nothing changes.
    Ignored,
}

/// The stock selection a handle denotes.
pub open spec fn stock_selection_ok(ih: u32, s: StockSelection) -> bool {
    if ih & STOCK_OBJECT_FLAG == 0 {
        s is NotStock
    } else {
        let id = ih & !STOCK_OBJECT_FLAG;
        if id == WHITE_BRUSH {
            s == StockSelection::Brush(Some(Rgb { r: 255, g: 255, b: 255 }))
        } else if id == LTGRAY_BRUSH {
            s == StockSelection::Brush(Some(Rgb { r: 192, g: 192, b: 192 }))
        } else if id == GRAY_BRUSH {
            s == StockSelection::Brush(Some(Rgb { r: 128, g: 128, b: 128 }))
        } else if id == DKGRAY_BRUSH {
            s == StockSelection::Brush(Some(Rgb { r: 64, g: 64, b: 64 }))
        } else if id == BLACK_BRUSH {
            s == StockSelection::Brush(Some(Rgb { r: 0, g: 0, b: 0 }))
        } else if id == NULL_BRUSH {
            s == StockSelection::Brush(None)
        } else if id == WHITE_PEN {
            s matches StockSelection::Pen(Some(p)) && is_cosmetic_pen(p, Rgb { r: 255, g: 255, b: 255 })
        } else if id == BLACK_PEN {
            s matches StockSelection::Pen(Some(p)) && is_cosmetic_pen(p, Rgb { r: 0, g: 0, b: 0 })
        } else if id == NULL_PEN {
            s matches StockSelection::Pen(None)
        } else {
            s is Ignored
        }
    }
}

/// The stock brushes are the gray levels their names give, from white down
/// to black in steps of a quarter: `WHITE_BRUSH` 255, `LTGRAY_BRUSH` 192,
/// `GRAY_BRUSH` 128, `DKGRAY_BRUSH` 64, `BLACK_BRUSH` 0.
pub proof fn lemma_stock_brush_levels(ih: u32, s: StockSelection)
    requires
        stock_selection_ok(ih, s),
        ih & STOCK_OBJECT_FLAG != 0,
        ih & !STOCK_OBJECT_FLAG <= BLACK_BRUSH,
    ensures
        ({
            let id = ih & !STOCK_OBJECT_FLAG;
            let level: int = if id == WHITE_BRUSH {
                255
            } else {
                256 - 64 * id
            };
            s matches StockSelection::Brush(Some(c)) && c.r == level && c.g == level && c.b == level
        }),
        ih & !STOCK_OBJECT_FLAG == BLACK_BRUSH ==> s == StockSelection::Brush(
            Some(Rgb { r: 0, g: 0, b: 0 }),
        ),
{
}

/// The other stock objects: the null brush and null pen select nothing to
/// fill or stroke with, the white and black pens select a cosmetic pen of
/// that color, and a handle without the stock flag is no stock object.
pub proof fn lemma_stock_pens(ih: u32, s: StockSelection)
    requires
        stock_selection_ok(ih, s),
    ensures
        ih & STOCK_OBJECT_FLAG == 0 ==> s is NotStock,
        ih & STOCK_OBJECT_FLAG != 0 && ih & !STOCK_OBJECT_FLAG == NULL_BRUSH ==> s
            == StockSelection::Brush(None),
        ih & STOCK_OBJECT_FLAG != 0 && ih & !STOCK_OBJECT_FLAG == NULL_PEN ==> s matches StockSelection::Pen(None),
        ih & STOCK_OBJECT_FLAG != 0 && ih & !STOCK_OBJECT_FLAG == WHITE_PEN ==> (s matches StockSelection::Pen(Some(p))
            && p.color == Rgb { r: 255, g: 255, b: 255 } && p.cosmetic && p.width == 1 && p.dash is None),
        ih & STOCK_OBJECT_FLAG != 0 && ih & !STOCK_OBJECT_FLAG == BLACK_PEN ==> (s matches StockSelection::Pen(Some(p))
            && p.color == Rgb { r: 0, g: 0, b: 0 } && p.cosmetic && p.width == 1 && p.dash is None),
{
}

/// Decide what a SELECTOBJECT of handle `ih` selects when it names a stock object.
pub fn stock_selection(ih: u32) -> (s: StockSelection)
    ensures
        stock_selection_ok(ih, s),
{
    if ih & STOCK_OBJECT_FLAG == 0 {
        return StockSelection::NotStock;
    }
    let id = ih & !STOCK_OBJECT_FLAG;
    if id == WHITE_BRUSH {
        StockSelection::Brush(Some(Rgb::new(255, 255, 255)))
    } else if id == LTGRAY_BRUSH {
        StockSelection::Brush(Some(Rgb::new(192, 192, 192)))
    } else if id == GRAY_BRUSH {
        StockSelection::Brush(Some(Rgb::new(128, 128, 128)))
    } else if id == DKGRAY_BRUSH {
        StockSelection::Brush(Some(Rgb::new(64, 64, 64)))
    } else if id == BLACK_BRUSH {
        StockSelection::Brush(Some(Rgb::new(0, 0, 0)))
    } else if id == NULL_BRUSH {
        StockSelection::Brush(None)
    } else if id == WHITE_PEN {
        StockSelection::Pen(Some(cosmetic_pen(Rgb::new(255, 255, 255))))
    } else if id == BLACK_PEN {
        StockSelection::Pen(Some(cosmetic_pen(Rgb::new(0, 0, 0))))
    } else if id == NULL_PEN {
        StockSelection::Pen(None)
    } else {
        StockSelection::Ignored
    }
}

// ---------------------------------------------------------------------------
// Point lists as path commands
// ---------------------------------------------------------------------------

/// A path command in logical coordinates. `MoveToCurrent` starts a figure at
/// the device context's current position, whatever it is at that time.
#[derive(Debug, Clone, Copy, PartialEq, Eq, Structural)]
pub enum Seg {
    MoveTo(PointL),
    MoveToCurrent,
    LineTo(PointL),
    CubicTo(PointL, PointL, PointL),
    Close,
}

/// A line to each point in turn.
pub open spec fn lines_to(pts: Seq<PointL>) -> Seq<Seg> {
    pts.map_values(|p: PointL| Seg::LineTo(p))
}

/// The figure a poly record draws: from the current position through every
/// point (`cont`), or from the first point through the others; closed when
/// `close`; nothing for no points.
pub open spec fn spec_poly_segs(pts: Seq<PointL>, close: bool, cont: bool) -> Seq<Seg> {
    if pts.len() == 0 {
        seq![]
    } else {
        (if cont {
            seq![Seg::MoveToCurrent] + lines_to(pts)
        } else {
            seq![Seg::MoveTo(pts[0])] + lines_to(pts.subrange(1, pts.len() as int))
        }) + (if close {
            seq![Seg::Close]
        } else {
            seq![]
        })
    }
}

/// Append a line to each of `pts[from..]`.
fn push_lines(segs: &mut Vec<Seg>, pts: &[PointL], from: usize)
    requires
        from <= pts@.len(),
    ensures
        final(segs)@ == old(segs)@ + lines_to(pts@.subrange(from as int, pts@.len() as int)),
{
    let mut i = from;
    while i < pts.len()
        invariant
            from <= i <= pts@.len(),
            segs@ == old(segs)@ + lines_to(pts@.subrange(from as int, i as int)),
        decreases pts@.len() - i,
    {
        segs.push(Seg::LineTo(pts[i]));
        i = i + 1;
        assert(segs@ =~= old(segs)@ + lines_to(pts@.subrange(from as int, i as int)));
    }
}

/// Path commands for a poly record, closing when `close`.
pub fn poly_to_segs(pts: &[PointL], close: bool, cont: bool) -> (segs: Vec<Seg>)
    ensures
        segs@ == spec_poly_segs(pts@, close, cont),
{
    let mut segs: Vec<Seg> = Vec::new();
    if pts.len() == 0 {
        return segs;
    }
    if cont {
        segs.push(Seg::MoveToCurrent);
        push_lines(&mut segs, pts, 0);
        assert(pts@.subrange(0, pts@.len() as int) =~= pts@);
    } else {
        segs.push(Seg::MoveTo(pts[0]));
        push_lines(&mut segs, pts, 1);
    }
    if close {
        segs.push(Seg::Close);
    }
    assert(segs@ =~= spec_poly_segs(pts@, close, cont));
    segs
}

/// A cubic through each group of three points from `i` on; an incomplete
/// group at the end is dropped.
pub open spec fn cubics(pts: Seq<PointL>, i: int) -> Seq<Seg>
    decreases pts.len() - i,
{
    if 0 <= i && i + 2 < pts.len() {
        seq![Seg::CubicTo(pts[i], pts[i + 1], pts[i + 2])] + cubics(pts, i + 3)
    } else {
        seq![]
    }
}

/// The figure a poly-Bézier record draws: from the current position
/// (`cont`) or from the first point, through cubics of the points that follow.
pub open spec fn spec_bezier_segs(pts: Seq<PointL>, cont: bool) -> Seq<Seg> {
    if cont {
        seq![Seg::MoveToCurrent] + cubics(pts, 0)
    } else if pts.len() == 0 {
        seq![]
    } else {
        seq![Seg::MoveTo(pts[0])] + cubics(pts, 1)
    }
}

/// Path commands for a poly-Bézier record.
pub fn bezier_to_segs(pts: &[PointL], cont: bool) -> (segs: Vec<Seg>)
    ensures
        segs@ == spec_bezier_segs(pts@, cont),
{
    let mut segs: Vec<Seg> = Vec::new();
    let mut idx: usize = 0;
    if cont {
        segs.push(Seg::MoveToCurrent);
    } else {
        if pts.len() == 0 {
            return segs;
        }
        segs.push(Seg::MoveTo(pts[0]));
        idx = 1;
    }
    let ghost head = segs@;
    let ghost start = idx as int;
    while idx < pts.len() && pts.len() - idx > 2
        invariant
            idx <= pts@.len() + 2,
            head + cubics(pts@, start) == segs@ + cubics(pts@, idx as int),
        decreases pts@.len() + 2 - idx,
    {
        segs.push(Seg::CubicTo(pts[idx], pts[idx + 1], pts[idx + 2]));
        proof {
            assert(segs@ + cubics(pts@, idx + 3) =~= head + cubics(pts@, start));
        }
        idx = idx + 3;
    }
    assert(segs@ =~= spec_bezier_segs(pts@, cont));
    segs
}

/// The figures of a poly-polyline or poly-polygon from point `idx` on: each
/// count takes the next points; a count reaching past the points ends the
/// list; an empty figure draws nothing.
pub open spec fn spec_polypoly_segs(counts: Seq<u32>, pts: Seq<PointL>, close: bool, idx: int) -> Seq<
    Seg,
>
    decreases counts.len(),
{
    if counts.len() == 0 {
        seq![]
    } else {
        let n = counts[0] as int;
        if idx + n > pts.len() {
            seq![]
        } else {
            let sub = pts.subrange(idx, idx + n);
            (if n == 0 {
                seq![]
            } else {
                spec_poly_segs(sub, close, false)
            }) + spec_polypoly_segs(counts.subrange(1, counts.len() as int), pts, close, idx + n)
        }
    }
}

/// Path commands for a poly-polyline (`close` false) or poly-polygon.
pub fn polypoly_segs(counts: &[u32], pts: &[PointL], close: bool) -> (segs: Vec<Seg>)
    ensures
        segs@ == spec_polypoly_segs(counts@, pts@, close, 0),
{
    let mut segs: Vec<Seg> = Vec::new();
    let mut idx: usize = 0;
    let mut k: usize = 0;
    assert(counts@.subrange(0, counts@.len() as int) =~= counts@);
    while k < counts.len()
        invariant
            k <= counts@.len(),
            idx <= pts@.len(),
            spec_polypoly_segs(counts@, pts@, close, 0) == segs@ + spec_polypoly_segs(
                counts@.subrange(k as int, counts@.len() as int),
                pts@,
                close,
                idx as int,
            ),
        ensures
            spec_polypoly_segs(counts@, pts@, close, 0) == segs@,
        decreases counts@.len() - k,
    {
        let ghost rest = counts@.subrange(k as int, counts@.len() as int);
        let n = counts[k] as usize;
        if n > pts.len() - idx {
            assert(segs@ + spec_polypoly_segs(rest, pts@, close, idx as int) =~= segs@);
            break ;
        }
        let sub = vstd::slice::slice_subrange(pts, idx, idx + n);
        let ghost before = segs@;
        if n > 0 {
            let mut fig = poly_to_segs(sub, close, false);
            segs.append(&mut fig);
        }
        proof {
            assert(rest.subrange(1, rest.len() as int) =~= counts@.subrange(k + 1, counts@.len() as int));
            if n == 0 {
                assert(segs@ =~= before + Seq::<Seg>::empty());
            }
        }
        idx = idx + n;
        k = k + 1;
        if k == counts.len() {
            assert(segs@ + spec_polypoly_segs(
                counts@.subrange(k as int, counts@.len() as int),
                pts@,
                close,
                idx as int,
            ) =~= segs@);
        }
    }
    segs
}

/// Append `s` to a successful result.
pub open spec fn prepend_segs(s: Seq<Seg>, r: Option<Seq<Seg>>) -> Option<Seq<Seg>> {
    match r {
        Some(x) => Some(s + x),
        None => None,
    }
}

/// The commands of a PolyDraw record's points from `i` on, by their type
/// bytes: move, line (closed when the close flag is set), Bézier (three
/// points, closed when the third carries the flag; dropped when fewer than
/// three points remain), anything else skipped. `None` where a Bézier's last
/// point has no type byte.
pub open spec fn spec_polydraw_walk(pts: Seq<PointL>, types: Seq<u8>, i: int) -> Option<Seq<Seg>>
    decreases pts.len() + 3 - i,
{
    if i < 0 || i >= pts.len() || i >= types.len() {
        Some(seq![])
    } else {
        let t = types[i] & !PT_CLOSEFIGURE;
        if t == PT_MOVETO {
            prepend_segs(seq![Seg::MoveTo(pts[i])], spec_polydraw_walk(pts, types, i + 1))
        } else if t == PT_LINETO {
            prepend_segs(
                seq![Seg::LineTo(pts[i])] + (if types[i] & PT_CLOSEFIGURE != 0 {
                    seq![Seg::Close]
                } else {
                    seq![]
                }),
                spec_polydraw_walk(pts, types, i + 1),
            )
        } else if t == PT_BEZIERTO {
            if i + 2 < pts.len() {
                if i + 2 >= types.len() {
                    None
                } else {
                    prepend_segs(
                        seq![Seg::CubicTo(pts[i], pts[i + 1], pts[i + 2])] + (if types[i + 2]
                            & PT_CLOSEFIGURE != 0 {
                            seq![Seg::Close]
                        } else {
                            seq![]
                        }),
                        spec_polydraw_walk(pts, types, i + 3),
                    )
                }
            } else {
                spec_polydraw_walk(pts, types, i + 3)
            }
        } else {
            spec_polydraw_walk(pts, types, i + 1)
        }
    }
}

/// Whether the type bytes of a PolyDraw record reach the last point of every
/// Bézier it draws: the records `polydraw_segs` takes.
pub fn polydraw_types_cover(pts: &[PointL], types: &[u8]) -> (r: bool)
    requires
        pts@.len() + 3 <= usize::MAX,
    ensures
        r == spec_polydraw_walk(pts@, types@, 0) is Some,
{
    let mut i: usize = 0;
    while i < pts.len() && i < types.len()
        invariant
            i <= pts@.len() + 2,
            pts@.len() + 3 <= usize::MAX,
            (spec_polydraw_walk(pts@, types@, 0) is Some) == (spec_polydraw_walk(
                pts@,
                types@,
                i as int,
            ) is Some),
        decreases pts@.len() + 2 - i,
    {
        let t = types[i] & !PT_CLOSEFIGURE;
        if t == PT_BEZIERTO {
            if pts.len() - i > 2 && i + 2 >= types.len() {
                return false;
            }
            i = i + 3;
        } else {
            i = i + 1;
        }
    }
    true
}

/// Path commands for a PolyDraw record, starting at the current position.
pub fn polydraw_segs(pts: &[PointL], types: &[u8]) -> (segs: Vec<Seg>)
    requires
        spec_polydraw_walk(pts@, types@, 0) is Some,
        pts@.len() + 3 <= usize::MAX,
    ensures
        Some(segs@) == prepend_segs(seq![Seg::MoveToCurrent], spec_polydraw_walk(pts@, types@, 0)),
{
    let mut segs: Vec<Seg> = vec![Seg::MoveToCurrent];
    let mut i: usize = 0;
    while i < pts.len() && i < types.len()
        invariant
            i <= pts@.len() + 2,
            pts@.len() + 3 <= usize::MAX,
            spec_polydraw_walk(pts@, types@, 0) is Some,
            prepend_segs(seq![Seg::MoveToCurrent], spec_polydraw_walk(pts@, types@, 0))
                == prepend_segs(segs@, spec_polydraw_walk(pts@, types@, i as int)),
        decreases pts@.len() + 2 - i,
    {
        let ghost before = segs@;
        let ghost rest_i = spec_polydraw_walk(pts@, types@, i as int);
        let t = types[i] & !PT_CLOSEFIGURE;
        if t == PT_MOVETO {
            segs.push(Seg::MoveTo(pts[i]));
            proof {
                match spec_polydraw_walk(pts@, types@, i + 1) {
                    Some(x) => {
                        assert(before + (seq![Seg::MoveTo(pts@[i as int])] + x) =~= segs@ + x);
                    },
                    None => {},
                }
            }
            i = i + 1;
        } else if t == PT_LINETO {
            segs.push(Seg::LineTo(pts[i]));
            let closed = types[i] & PT_CLOSEFIGURE != 0;
            if closed {
                segs.push(Seg::Close);
            }
            proof {
                let add = seq![Seg::LineTo(pts@[i as int])] + (if closed {
                    seq![Seg::Close]
                } else {
                    seq![]
                });
                assert(segs@ =~= before + add);
                match spec_polydraw_walk(pts@, types@, i + 1) {
                    Some(x) => {
                        assert(before + (add + x) =~= segs@ + x);
                    },
                    None => {},
                }
            }
            i = i + 1;
        } else if t == PT_BEZIERTO {
            if pts.len() - i > 2 {
                assert(i + 2 < types@.len());
                segs.push(Seg::CubicTo(pts[i], pts[i + 1], pts[i + 2]));
                let closed = types[i + 2] & PT_CLOSEFIGURE != 0;
                if closed {
                    segs.push(Seg::Close);
                }
                proof {
                    let add = seq![Seg::CubicTo(pts@[i as int], pts@[i + 1], pts@[i + 2])] + (
                    if closed {
                        seq![Seg::Close]
                    } else {
                        seq![]
                    });
                    assert(segs@ =~= before + add);
                    match spec_polydraw_walk(pts@, types@, i + 3) {
                        Some(x) => {
                            assert(before + (add + x) =~= segs@ + x);
                        },
                        None => {},
                    }
                }
            }
            i = i + 3;
        } else {
            i = i + 1;
        }
    }
    proof {
        assert(spec_polydraw_walk(pts@, types@, i as int) == Some(Seq::<Seg>::empty()));
        assert(segs@ + Seq::<Seg>::empty() =~= segs@);
    }
    segs
}

/// The outline of a rectangle: its four corners from the top left, clockwise
/// in logical space, closed.
pub open spec fn spec_rect_segs(r: RectL) -> Seq<Seg> {
    seq![
        Seg::MoveTo(PointL { x: r.left, y: r.top }),
        Seg::LineTo(PointL { x: r.right, y: r.top }),
        Seg::LineTo(PointL { x: r.right, y: r.bottom }),
        Seg::LineTo(PointL { x: r.left, y: r.bottom }),
        Seg::Close,
    ]
}

pub fn rect_segs(r: &RectL) -> (segs: Vec<Seg>)
    ensures
        segs@ == spec_rect_segs(*r),
{
    let segs = vec![
        Seg::MoveTo(PointL::new(r.left, r.top)),
        Seg::LineTo(PointL::new(r.right, r.top)),
        Seg::LineTo(PointL::new(r.right, r.bottom)),
        Seg::LineTo(PointL::new(r.left, r.bottom)),
        Seg::Close,
    ];
    assert(segs@ =~= spec_rect_segs(*r));
    segs
}

// ---------------------------------------------------------------------------
// Records kept verbatim
// ---------------------------------------------------------------------------

/// SETTEXTCOLOR.
pub const EMR_SETTEXTCOLOR: u32 = 24;

/// What a record kept verbatim means for playback.
#[derive(Debug, Clone, PartialEq, Eq)]
pub enum UnknownRecord {
    /// Set the text color.
    TextColor(Rgb),
    /// Store a font under a handle.
    Font(u32, FontSpec),
    /// Draw a run of text.
    Text(TextOut),
    /// A text record whose payload could not be read: nothing happens.
    Nothing,
    /// A record with no vector meaning: report its type as skipped.
    Skipped,
}

/// How playback treats a verbatim record: SETTEXTCOLOR sets the text color
/// from its first three bytes (when it has four); a font or text record is
/// parsed (nothing happens when that fails); any other type is skipped.
pub open spec fn unknown_record_ok(itype: u32, data: Seq<u8>, u: UnknownRecord) -> bool {
    if itype == EMR_SETTEXTCOLOR {
        if data.len() >= 4 {
            u == UnknownRecord::TextColor(Rgb { r: data[0], g: data[1], b: data[2] })
        } else {
            u is Nothing
        }
    } else if itype == EMR_EXTCREATEFONTINDIRECTW {
        match spec_font(data) {
            None => u is Nothing,
            Some((ih, size, weight, italic, family)) => u matches UnknownRecord::Font(h, f) && h
                == ih && f.size == size && f.weight == weight && f.italic == italic && f.family@
                == family,
        }
    } else if itype == EMR_EXTTEXTOUTW || itype == EMR_EXTTEXTOUTA {
        match spec_text_out(data, itype == EMR_EXTTEXTOUTW) {
            None => u is Nothing,
            Some((x, y, text)) => u matches UnknownRecord::Text(t) && t.x == x && t.y == y
                && t.text@ == text,
        }
    } else {
        u is Skipped
    }
}

/// Decide what a record kept verbatim means for playback.
pub fn classify_unknown(itype: u32, data: &[u8]) -> (u: UnknownRecord)
    ensures
        unknown_record_ok(itype, data@, u),
{
    if itype == EMR_SETTEXTCOLOR {
        if data.len() >= 4 {
            UnknownRecord::TextColor(Rgb::new(data[0], data[1], data[2]))
        } else {
            UnknownRecord::Nothing
        }
    } else if itype == EMR_EXTCREATEFONTINDIRECTW {
        match parse_font(data) {
            Some((ih, spec)) => UnknownRecord::Font(ih, spec),
            None => UnknownRecord::Nothing,
        }
    } else if itype == EMR_EXTTEXTOUTW || itype == EMR_EXTTEXTOUTA {
        match parse_text_out(data, itype == EMR_EXTTEXTOUTW) {
            Some(t) => UnknownRecord::Text(t),
            None => UnknownRecord::Nothing,
        }
    } else {
        UnknownRecord::Skipped
    }
}

/// An ANSI text record (EMR_EXTTEXTOUTA) is drawn when its EMRTEXT is there
/// and its string lies within the payload, at its reference point, with one
/// character per byte: the `nChars` bytes at the string offset (counted
/// from the record start, 8 bytes before the payload).
pub proof fn lemma_ansi_text_bytes(data: Seq<u8>, u: UnknownRecord)
    requires
        unknown_record_ok(EMR_EXTTEXTOUTA, data, u),
    ensures
        ({
            let n = u32_at(data, 36) as int;
            let off = u32_at(data, 40) as int - 8;
            &&& u is Text <==> (data.len() >= 44 && off >= 0 && off + n <= data.len())
            &&& u matches UnknownRecord::Text(t) ==> t.x == i32_at(data, 28) && t.y == i32_at(data, 32)
                && t.text@.len() == n && forall|k: int| 0 <= k < n ==> #[trigger] t.text@[k]
                == data[off + k] as char
        }),
{
}

/// A wide text record (EMR_EXTTEXTOUTW) is drawn when its EMRTEXT is there
/// and its string of `nChars` 16-bit units lies within the payload, with
/// one character per little-endian unit (a lone surrogate shown as `?`).
pub proof fn lemma_wide_text_units(data: Seq<u8>, u: UnknownRecord)
    requires
        unknown_record_ok(EMR_EXTTEXTOUTW, data, u),
    ensures
        ({
            let n = u32_at(data, 36) as int;
            let off = u32_at(data, 40) as int - 8;
            &&& u is Text <==> (data.len() >= 44 && off >= 0 && (n == 0 || off + 2 * n
                <= data.len()))
            &&& u matches UnknownRecord::Text(t) ==> t.x == i32_at(data, 28) && t.y == i32_at(data, 32)
                && t.text@.len() == n && forall|k: int|
                0 <= k < n ==> {
                    let cu = u16_at(data, off + 2 * k);
                    #[trigger] t.text@[k] == if 0xD800 <= cu <= 0xDFFF {
                        '?'
                    } else {
                        cu as char
                    }
                }
        }),
{
}

} // verus!
