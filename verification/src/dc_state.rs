//! Device-context state during playback that needs no geometry: the map
//! mode and window/viewport pairs, the selected pen, brush and font, the
//! polygon fill mode, the arc direction and the text color; the table of
//! created objects; and the stack of saved states.

use std::collections::HashMap;
use vstd::prelude::*;
use crate::gdi::{
    brush_of, build_pen, pen_model, spec_cap, spec_dash, spec_join, stock_selection,
    stock_selection_ok, PenModel, PenSpec, StockSelection,
};
use crate::records::{EmfRecord, RecordModel};
use crate::style::{FillRule, LineCap, LineJoin, Rgb};
use crate::text::{FontModel, FontSpec};
use crate::types::{
    ColorRef, PointL, SizeL, AD_CLOCKWISE, ALTERNATE, BLACK_BRUSH, BLACK_PEN, BS_NULL, DKGRAY_BRUSH,
    GRAY_BRUSH, LTGRAY_BRUSH, MM_TEXT, NULL_BRUSH, NULL_PEN, PS_COSMETIC, PS_NULL, PS_STYLE_MASK,
    PS_TYPE_MASK, STOCK_OBJECT_FLAG, WHITE_BRUSH, WHITE_PEN, WINDING,
};

verus! {

broadcast use vstd::std_specs::hash::group_hash_axioms;

// ---------------------------------------------------------------------------
// The object table
// ---------------------------------------------------------------------------

/// An entry of the EMF object table.
#[derive(Debug, Clone, PartialEq, Eq)]
pub enum GdiObject {
    /// `None` means a null pen.
    Pen(Option<PenSpec>),
    /// `None` means a null brush; otherwise a solid color.
    Brush(Option<Rgb>),
    /// A font (for text vectorization).
    Font(FontSpec),
}

/// The model of a table entry.
pub enum ObjectModel {
    Pen(Option<PenModel>),
    Brush(Option<Rgb>),
    Font(FontModel),
}

impl View for GdiObject {
    type V = ObjectModel;

    open spec fn view(&self) -> ObjectModel {
        match self {
            GdiObject::Pen(p) => ObjectModel::Pen(pen_model(*p)),
            GdiObject::Brush(b) => ObjectModel::Brush(*b),
            GdiObject::Font(f) => ObjectModel::Font(f@),
        }
    }
}

/// The objects created by the records played so far, by handle.
pub struct ObjectTable {
    objects: HashMap<u32, GdiObject>,
}

impl View for ObjectTable {
    type V = Map<u32, ObjectModel>;

    closed spec fn view(&self) -> Map<u32, ObjectModel> {
        self.objects@.map_values(|o: GdiObject| o@)
    }
}

impl ObjectTable {
    /// An empty table.
    pub fn new() -> (t: Self)
        ensures
            t@ == Map::<u32, ObjectModel>::empty(),
    {
        let t = ObjectTable { objects: HashMap::new() };
        assert(t@ =~= Map::<u32, ObjectModel>::empty());
        t
    }

    /// Store `obj` under handle `ih`, replacing what was there.
    pub fn insert(&mut self, ih: u32, obj: GdiObject)
        ensures
            final(self)@ == old(self)@.insert(ih, obj@),
    {
        let ghost o = obj@;
        self.objects.insert(ih, obj);
        assert(self@ =~= old(self)@.insert(ih, o));
    }

    /// Drop the object under handle `ih`, if any.
    pub fn remove(&mut self, ih: u32)
        ensures
            final(self)@ == old(self)@.remove(ih),
    {
        self.objects.remove(&ih);
        assert(self@ =~= old(self)@.remove(ih));
    }

    /// The object under handle `ih`.
    pub fn get(&self, ih: u32) -> (r: Option<&GdiObject>)
        ensures
            match r {
                Some(o) => self@.contains_key(ih) && o@ == self@[ih],
                None => !self@.contains_key(ih),
            },
    {
        self.objects.get(&ih)
    }
}

// ---------------------------------------------------------------------------
// The device context
// ---------------------------------------------------------------------------

/// The drawing state that needs no geometry.
#[derive(Debug, Clone)]
pub struct DcState {
    pub map_mode: u32,
    pub window_org: PointL,
    pub window_ext: SizeL,
    pub viewport_org: PointL,
    pub viewport_ext: SizeL,
    /// `None`: the null pen.
    pub pen: Option<PenSpec>,
    /// `None`: the null brush.
    pub brush: Option<Rgb>,
    pub fill_rule: FillRule,
    /// Arcs are drawn clockwise.
    pub clockwise: bool,
    pub font: FontSpec,
    pub text_color: Rgb,
}

/// The model of a [`DcState`].
pub struct DcModel {
    pub map_mode: u32,
    pub window_org: PointL,
    pub window_ext: SizeL,
    pub viewport_org: PointL,
    pub viewport_ext: SizeL,
    pub pen: Option<PenModel>,
    pub brush: Option<Rgb>,
    pub fill_rule: FillRule,
    pub clockwise: bool,
    pub font: FontModel,
    pub text_color: Rgb,
}

impl View for DcState {
    type V = DcModel;

    open spec fn view(&self) -> DcModel {
        DcModel {
            map_mode: self.map_mode,
            window_org: self.window_org,
            window_ext: self.window_ext,
            viewport_org: self.viewport_org,
            viewport_ext: self.viewport_ext,
            pen: pen_model(self.pen),
            brush: self.brush,
            fill_rule: self.fill_rule,
            clockwise: self.clockwise,
            font: self.font@,
            text_color: self.text_color,
        }
    }
}

/// A cosmetic, solid, round-capped and round-joined pen of the given color.
pub open spec fn cosmetic_model(color: Rgb) -> PenModel {
    PenModel { color, width: 1, cosmetic: true, dash: None, cap: LineCap::Round, join: LineJoin::Round }
}

/// GDI's initial state: MM_TEXT with unit extents at the origin, the black
/// pen and the white brush selected, alternate fill, counterclockwise arcs,
/// a 16-unit upright `sans-serif` font of weight 400, black text.
pub open spec fn initial_dc() -> DcModel {
    DcModel {
        map_mode: MM_TEXT,
        window_org: PointL { x: 0, y: 0 },
        window_ext: SizeL { cx: 1, cy: 1 },
        viewport_org: PointL { x: 0, y: 0 },
        viewport_ext: SizeL { cx: 1, cy: 1 },
        pen: Some(cosmetic_model(Rgb { r: 0, g: 0, b: 0 })),
        brush: Some(Rgb { r: 255, g: 255, b: 255 }),
        fill_rule: FillRule::EvenOdd,
        clockwise: false,
        font: FontModel { size: 16, weight: 400, italic: false, family: "sans-serif"@ },
        text_color: Rgb { r: 0, g: 0, b: 0 },
    }
}

impl DcState {
    /// GDI's initial state.
    pub fn new() -> (d: Self)
        ensures
            d@ == initial_dc(),
    {
        let black = Rgb::new(0, 0, 0);
        DcState {
            map_mode: MM_TEXT,
            window_org: PointL::new(0, 0),
            window_ext: SizeL::new(1, 1),
            viewport_org: PointL::new(0, 0),
            viewport_ext: SizeL::new(1, 1),
            pen: Some(crate::gdi::cosmetic_pen(black)),
            brush: Some(Rgb::new(255, 255, 255)),
            fill_rule: FillRule::EvenOdd,
            clockwise: false,
            font: FontSpec::default(),
            text_color: black,
        }
    }
}

// ---------------------------------------------------------------------------
// Records that change the state
// ---------------------------------------------------------------------------

/// The pen a CREATEPEN (`ext` false) or EXTCREATEPEN (`ext` true) defines:
/// none for the null style; otherwise its color, its width (at least 1),
/// whether it is cosmetic (the type bits of an extended pen, a zero width for
/// a plain one), its dash pattern, cap and join.
pub open spec fn spec_pen(style: u32, width: u32, color: ColorRef, ext: bool, entries: Seq<u32>) -> Option<
    PenModel,
> {
    if style & PS_STYLE_MASK == PS_NULL {
        None
    } else {
        let w: u32 = if width < 1 {
            1
        } else {
            width
        };
        Some(
            PenModel {
                color: Rgb { r: color.r, g: color.g, b: color.b },
                width: w,
                cosmetic: if ext {
                    style & PS_TYPE_MASK == PS_COSMETIC
                } else {
                    width == 0
                },
                dash: spec_dash(style & PS_STYLE_MASK, w as u64, entries),
                cap: spec_cap(style),
                join: spec_join(style),
            },
        )
    }
}

/// The brush a CREATEBRUSHINDIRECT defines: none for the null style.
pub open spec fn spec_brush(style: u32, color: ColorRef) -> Option<Rgb> {
    if style == BS_NULL {
        None
    } else {
        Some(Rgb { r: color.r, g: color.g, b: color.b })
    }
}

/// What SELECTOBJECT of handle `ih` does: a stock brush or pen is selected
/// as such (other stock objects change nothing); otherwise the table's
/// object under `ih` replaces the pen, brush or font of its kind, and an
/// unknown handle changes nothing.
pub open spec fn spec_select(dc: DcModel, objs: Map<u32, ObjectModel>, ih: u32) -> DcModel {
    if ih & STOCK_OBJECT_FLAG != 0 {
        let id = ih & !STOCK_OBJECT_FLAG;
        if id == WHITE_BRUSH {
            DcModel { brush: Some(Rgb { r: 255, g: 255, b: 255 }), ..dc }
        } else if id == LTGRAY_BRUSH {
            DcModel { brush: Some(Rgb { r: 192, g: 192, b: 192 }), ..dc }
        } else if id == GRAY_BRUSH {
            DcModel { brush: Some(Rgb { r: 128, g: 128, b: 128 }), ..dc }
        } else if id == DKGRAY_BRUSH {
            DcModel { brush: Some(Rgb { r: 64, g: 64, b: 64 }), ..dc }
        } else if id == BLACK_BRUSH {
            DcModel { brush: Some(Rgb { r: 0, g: 0, b: 0 }), ..dc }
        } else if id == NULL_BRUSH {
            DcModel { brush: None, ..dc }
        } else if id == WHITE_PEN {
            DcModel { pen: Some(cosmetic_model(Rgb { r: 255, g: 255, b: 255 })), ..dc }
        } else if id == BLACK_PEN {
            DcModel { pen: Some(cosmetic_model(Rgb { r: 0, g: 0, b: 0 })), ..dc }
        } else if id == NULL_PEN {
            DcModel { pen: None, ..dc }
        } else {
            dc
        }
    } else if objs.contains_key(ih) {
        match objs[ih] {
            ObjectModel::Pen(p) => DcModel { pen: p, ..dc },
            ObjectModel::Brush(b) => DcModel { brush: b, ..dc },
            ObjectModel::Font(f) => DcModel { font: f, ..dc },
        }
    } else {
        dc
    }
}

/// The state and table after a record that changes them: the map mode, the
/// window and viewport origins and extents, the fill mode (winding is
/// non-zero, anything else alternate), the arc direction; pen and brush
/// creation store the object under its handle, selection and deletion as
/// their names say. `None` for any other record.
pub open spec fn spec_apply(dc: DcModel, objs: Map<u32, ObjectModel>, rec: RecordModel) -> Option<
    (DcModel, Map<u32, ObjectModel>),
> {
    match rec {
        RecordModel::SetMapMode(m) => Some((DcModel { map_mode: m, ..dc }, objs)),
        RecordModel::SetWindowExtEx(s) => Some((DcModel { window_ext: s, ..dc }, objs)),
        RecordModel::SetWindowOrgEx(p) => Some((DcModel { window_org: p, ..dc }, objs)),
        RecordModel::SetViewportExtEx(s) => Some((DcModel { viewport_ext: s, ..dc }, objs)),
        RecordModel::SetViewportOrgEx(p) => Some((DcModel { viewport_org: p, ..dc }, objs)),
        RecordModel::SetPolyfillMode(m) => Some(
            (
                DcModel {
                    fill_rule: if m == WINDING {
                        FillRule::NonZero
                    } else {
                        FillRule::EvenOdd
                    },
                    ..dc
                },
                objs,
            ),
        ),
        RecordModel::SetArcDirection(d) => Some((DcModel { clockwise: d == AD_CLOCKWISE, ..dc }, objs)),
        RecordModel::CreatePen { ih, style, width, color } => Some(
            (dc, objs.insert(ih, ObjectModel::Pen(spec_pen(style, width as u32, color, false, seq![])))),
        ),
        RecordModel::ExtCreatePen { ih, style, width, color, style_entries, .. } => Some(
            (dc, objs.insert(ih, ObjectModel::Pen(spec_pen(style, width, color, true, style_entries)))),
        ),
        RecordModel::CreateBrushIndirect { ih, style, color, .. } => Some(
            (dc, objs.insert(ih, ObjectModel::Brush(spec_brush(style, color)))),
        ),
        RecordModel::SelectObject(ih) => Some((spec_select(dc, objs, ih), objs)),
        RecordModel::DeleteObject(ih) => Some((dc, objs.remove(ih))),
        _ => None,
    }
}

/// The polygon fill mode an emitter writes for a fill rule: alternate for
/// even-odd, winding for non-zero.
pub open spec fn spec_polyfill_mode(rule: FillRule) -> u32 {
    match rule {
        FillRule::EvenOdd => ALTERNATE,
        FillRule::NonZero => WINDING,
    }
}

/// The polygon fill mode for a fill rule.
pub fn polyfill_mode(rule: FillRule) -> (m: u32)
    ensures
        m == spec_polyfill_mode(rule),
{
    match rule {
        FillRule::EvenOdd => ALTERNATE,
        FillRule::NonZero => WINDING,
    }
}

/// The fill mode written for a fill rule plays back as that rule, nothing
/// else changed.
pub proof fn lemma_fill_rule_reads_back(dc: DcModel, objs: Map<u32, ObjectModel>, rule: FillRule)
    ensures
        spec_apply(dc, objs, RecordModel::SetPolyfillMode(spec_polyfill_mode(rule))) == Some(
            (DcModel { fill_rule: rule, ..dc }, objs),
        ),
{
}

/// The pen a pen record defines.
fn pen_of(style: u32, width: u32, color: ColorRef, ext: bool, entries: &[u32]) -> (r: Option<PenSpec>)
    ensures
        pen_model(r) == spec_pen(style, width, color, ext, entries@),
{
    let r = build_pen(style, width, color, ext, entries);
    proof {
        if r is Some {
            assert(r->0@ == spec_pen(style, width, color, ext, entries@)->0);
        }
    }
    r
}

/// Select the object under handle `ih`.
pub fn select_object(dc: &mut DcState, objects: &ObjectTable, ih: u32)
    ensures
        final(dc)@ == spec_select(old(dc)@, objects@, ih),
{
    match stock_selection(ih) {
        StockSelection::Brush(b) => {
            dc.brush = b;
        },
        StockSelection::Pen(p) => {
            dc.pen = p;
        },
        StockSelection::Ignored => {},
        StockSelection::NotStock => match objects.get(ih) {
            Some(GdiObject::Pen(p)) => {
                dc.pen = match p {
                    Some(q) => Some(q.duplicate()),
                    None => None,
                };
            },
            Some(GdiObject::Brush(b)) => {
                dc.brush = *b;
            },
            Some(GdiObject::Font(f)) => {
                dc.font = f.duplicate();
            },
            None => {},
        },
    }
    assert(dc@ =~= spec_select(old(dc)@, objects@, ih));
}

/// Apply a record that changes the state or the object table; says whether
/// `rec` was such a record (nothing changes when it is not).
pub fn apply_state(dc: &mut DcState, objects: &mut ObjectTable, rec: &EmfRecord) -> (handled: bool)
    ensures
        match spec_apply(old(dc)@, old(objects)@, rec@) {
            Some((d, o)) => handled && final(dc)@ == d && final(objects)@ == o,
            None => !handled && final(dc)@ == old(dc)@ && final(objects)@ == old(objects)@,
        },
{
    match rec {
        EmfRecord::SetMapMode(m) => {
            dc.map_mode = *m;
            true
        },
        EmfRecord::SetWindowExtEx(s) => {
            dc.window_ext = *s;
            true
        },
        EmfRecord::SetWindowOrgEx(p) => {
            dc.window_org = *p;
            true
        },
        EmfRecord::SetViewportExtEx(s) => {
            dc.viewport_ext = *s;
            true
        },
        EmfRecord::SetViewportOrgEx(p) => {
            dc.viewport_org = *p;
            true
        },
        EmfRecord::SetPolyfillMode(m) => {
            dc.fill_rule = if *m == WINDING {
                FillRule::NonZero
            } else {
                FillRule::EvenOdd
            };
            true
        },
        EmfRecord::SetArcDirection(d) => {
            dc.clockwise = *d == AD_CLOCKWISE;
            true
        },
        EmfRecord::CreatePen { ih, style, width, color } => {
            let pen = pen_of(*style, *width as u32, *color, false, &[]);
            objects.insert(*ih, GdiObject::Pen(pen));
            true
        },
        EmfRecord::ExtCreatePen { ih, style, width, color, style_entries, .. } => {
            let pen = pen_of(*style, *width, *color, true, style_entries.as_slice());
            objects.insert(*ih, GdiObject::Pen(pen));
            true
        },
        EmfRecord::CreateBrushIndirect { ih, style, color, .. } => {
            objects.insert(*ih, GdiObject::Brush(brush_of(*style, *color)));
            true
        },
        EmfRecord::SelectObject(ih) => {
            select_object(dc, objects, *ih);
            true
        },
        EmfRecord::DeleteObject(ih) => {
            objects.remove(*ih);
            true
        },
        _ => false,
    }
}

// ---------------------------------------------------------------------------
// Saved states
// ---------------------------------------------------------------------------

/// The state and stack after popping up to `k` saved states: as many as
/// there are, the state becoming the last one popped.
pub open spec fn spec_pop_saved<T>(stack: Seq<T>, cur: T, k: int) -> (Seq<T>, T) {
    let m = if k < stack.len() {
        k
    } else {
        stack.len() as int
    };
    if m > 0 {
        (stack.subrange(0, stack.len() - m), stack[stack.len() - m])
    } else {
        (stack, cur)
    }
}

/// RESTOREDC with relative index `n`: a negative `n` pops `-n` saved states.
pub open spec fn spec_restore<T>(stack: Seq<T>, cur: T, n: i32) -> (Seq<T>, T) {
    spec_pop_saved(stack, cur, if n < 0 {
        -n
    } else {
        0
    })
}

/// Restore a saved state: a negative `n` pops `-n` saved states (as many as
/// there are), the current state becoming the last one popped.
pub fn restore_saved<T>(stack: &mut Vec<T>, cur: &mut T, n: i32)
    requires
        n != i32::MIN,
    ensures
        (final(stack)@, *final(cur)) == spec_restore(old(stack)@, *old(cur), n),
{
    let count: i32 = if n < 0 {
        -n
    } else {
        0
    };
    let mut i: i32 = 0;
    while i < count
        invariant
            0 <= i <= count,
            (stack@, *cur) == spec_pop_saved(old(stack)@, *old(cur), i as int),
        decreases count - i,
    {
        let ghost s0 = old(stack)@;
        if let Some(saved) = stack.pop() {
            *cur = saved;
            assert(stack@ =~= s0.subrange(0, s0.len() - (i + 1)));
        }
        i = i + 1;
    }
}

/// Restoring `-k` right after saving `k` states returns to the first of them
/// with the stack as it was before: RESTOREDC(-1) undoes the last SAVEDC.
pub proof fn lemma_restore_after_saves<T>(stack: Seq<T>, saved: Seq<T>, cur: T)
    requires
        0 < saved.len() <= i32::MAX,
    ensures
        spec_restore(stack + saved, cur, -(saved.len() as i32) as i32) == (stack, saved[0]),
{
    let all = stack + saved;
    let k = saved.len() as int;
    assert(-(saved.len() as i32) < 0);
    assert(all.subrange(0, all.len() - k) =~= stack);
    assert(all[all.len() - k] == saved[0]);
}

/// Selecting a stock brush sets the brush to the gray level its name gives,
/// from white down to black in steps of a quarter (`WHITE_BRUSH` 255,
/// `LTGRAY_BRUSH` 192, `GRAY_BRUSH` 128, `DKGRAY_BRUSH` 64, `BLACK_BRUSH`
/// 0), and changes nothing else.
pub proof fn lemma_select_stock_brush(dc: DcModel, objs: Map<u32, ObjectModel>, ih: u32)
    requires
        ih & STOCK_OBJECT_FLAG != 0,
        ih & !STOCK_OBJECT_FLAG <= BLACK_BRUSH,
    ensures
        ({
            let id = ih & !STOCK_OBJECT_FLAG;
            let level: int = if id == WHITE_BRUSH {
                255
            } else {
                256 - 64 * id
            };
            let after = spec_select(dc, objs, ih);
            &&& after.brush matches Some(c) && c.r == level && c.g == level && c.b == level
            &&& after == DcModel { brush: after.brush, ..dc }
        }),
{
}

} // verus!
