//! GDI object bookkeeping for EMF emission: handle allocation, pen and brush
//! deduplication, and the currently selected pen and brush.

use vstd::prelude::*;
use crate::records::{records_view, EmfRecord, RecordModel};
use crate::types::{ColorRef, BS_SOLID, NULL_BRUSH, NULL_PEN, STOCK_OBJECT_FLAG};

verus! {

/// Whether two records define the same pen: both EXTCREATEPEN with equal
/// style, width, color and style entries (handles and the remaining fields
/// aside).
pub open spec fn same_pen(a: RecordModel, b: RecordModel) -> bool {
    match (a, b) {
        (
            RecordModel::ExtCreatePen { style: s1, width: w1, color: c1, style_entries: e1, .. },
            RecordModel::ExtCreatePen { style: s2, width: w2, color: c2, style_entries: e2, .. },
        ) => s1 == s2 && w1 == w2 && c1 == c2 && e1 == e2,
        _ => false,
    }
}

/// Whether two records define the same brush: both CREATEBRUSHINDIRECT with
/// equal style, color and hatch (handles aside).
pub open spec fn same_brush(a: RecordModel, b: RecordModel) -> bool {
    match (a, b) {
        (
            RecordModel::CreateBrushIndirect { style: s1, color: c1, hatch: h1, .. },
            RecordModel::CreateBrushIndirect { style: s2, color: c2, hatch: h2, .. },
        ) => s1 == s2 && c1 == c2 && h1 == h2,
        _ => false,
    }
}

fn u32s_eq(a: &Vec<u32>, b: &Vec<u32>) -> (r: bool)
    ensures
        r == (a@ == b@),
{
    if a.len() != b.len() {
        return false;
    }
    let mut i: usize = 0;
    while i < a.len()
        invariant
            a@.len() == b@.len(),
            i <= a@.len(),
            forall|k: int| 0 <= k < i ==> a@[k] == b@[k],
        decreases a@.len() - i,
    {
        if a[i] != b[i] {
            return false;
        }
        i = i + 1;
    }
    assert(a@ =~= b@);
    true
}

/// Compare two pen records, ignoring their handles.
pub fn pen_eq_ignoring_handle(a: &EmfRecord, b: &EmfRecord) -> (r: bool)
    ensures
        r == same_pen(a@, b@),
{
    match (a, b) {
        (
            EmfRecord::ExtCreatePen { style: s1, width: w1, color: c1, style_entries: e1, .. },
            EmfRecord::ExtCreatePen { style: s2, width: w2, color: c2, style_entries: e2, .. },
        ) => *s1 == *s2 && *w1 == *w2 && c1.r == c2.r && c1.g == c2.g && c1.b == c2.b && u32s_eq(
            e1,
            e2,
        ),
        _ => false,
    }
}

/// Compare two brush records, ignoring their handles.
pub fn brush_eq_ignoring_handle(a: &EmfRecord, b: &EmfRecord) -> (r: bool)
    ensures
        r == same_brush(a@, b@),
{
    match (a, b) {
        (
            EmfRecord::CreateBrushIndirect { style: s1, color: c1, hatch: h1, .. },
            EmfRecord::CreateBrushIndirect { style: s2, color: c2, hatch: h2, .. },
        ) => *s1 == *s2 && c1.r == c2.r && c1.g == c2.g && c1.b == c2.b && *h1 == *h2,
        _ => false,
    }
}

/// The index of the first cached definition equal to `rec` (by `eq`).
pub open spec fn first_match(
    cache: Seq<(RecordModel, u32)>,
    rec: RecordModel,
    eq: spec_fn(RecordModel, RecordModel) -> bool,
) -> Option<int>
    decreases cache.len(),
{
    if cache.len() == 0 {
        None
    } else if eq(cache[0].0, rec) {
        Some(0)
    } else {
        match first_match(cache.subrange(1, cache.len() as int), rec, eq) {
            Some(i) => Some(i + 1),
            None => None,
        }
    }
}

/// The record `rec` with its object handle set to `h`.
pub open spec fn with_handle(rec: RecordModel, h: u32) -> RecordModel {
    match rec {
        RecordModel::ExtCreatePen { style, width, brush_style, color, hatch, style_entries, .. } =>
            RecordModel::ExtCreatePen {
            ih: h,
            style,
            width,
            brush_style,
            color,
            hatch,
            style_entries,
        },
        RecordModel::CreateBrushIndirect { style, color, hatch, .. } =>
            RecordModel::CreateBrushIndirect { ih: h, style, color, hatch },
        _ => rec,
    }
}

/// The GDI objects an emitter has created and selected.
pub struct GdiObjects {
    next_handle: u32,
    max_handle: u32,
    // Deduplication caches (definition -> handle).
    pens: Vec<(EmfRecord, u32)>,
    brushes: Vec<(EmfRecord, u32)>,
    cur_pen: Option<u32>,
    cur_brush: Option<u32>,
}

/// The model of a [`GdiObjects`].
pub struct GdiModel {
    pub next_handle: u32,
    pub max_handle: u32,
    pub pens: Seq<(RecordModel, u32)>,
    pub brushes: Seq<(RecordModel, u32)>,
    pub cur_pen: Option<u32>,
    pub cur_brush: Option<u32>,
}

impl View for GdiObjects {
    type V = GdiModel;

    closed spec fn view(&self) -> GdiModel {
        GdiModel {
            next_handle: self.next_handle,
            max_handle: self.max_handle,
            pens: self.pens@.map_values(|e: (EmfRecord, u32)| (e.0@, e.1)),
            brushes: self.brushes@.map_values(|e: (EmfRecord, u32)| (e.0@, e.1)),
            cur_pen: self.cur_pen,
            cur_brush: self.cur_brush,
        }
    }
}

/// Pen equality as a function value.
pub open spec fn pen_eq() -> spec_fn(RecordModel, RecordModel) -> bool {
    |a: RecordModel, b: RecordModel| same_pen(a, b)
}

/// Brush equality as a function value.
pub open spec fn brush_eq() -> spec_fn(RecordModel, RecordModel) -> bool {
    |a: RecordModel, b: RecordModel| same_brush(a, b)
}

/// The records appended to `before` to give `after`.
pub open spec fn appended(before: Seq<RecordModel>, after: Seq<RecordModel>) -> Seq<RecordModel> {
    after.subrange(before.len() as int, after.len() as int)
}

/// Whether `after` extends `before`.
pub open spec fn extends(before: Seq<RecordModel>, after: Seq<RecordModel>) -> bool {
    before.len() <= after.len() && after.subrange(0, before.len() as int) == before
}

/// What selecting a definition does: the handle of the first cached equal
/// definition, or a new handle (the next one, which also raises the largest
/// handle) under which the definition is written and cached; then a
/// SELECTOBJECT unless that handle is already selected.
pub open spec fn select_step(
    cache: Seq<(RecordModel, u32)>,
    cur: Option<u32>,
    next: u32,
    max: u32,
    def: RecordModel,
    eq: spec_fn(RecordModel, RecordModel) -> bool,
    out: Seq<RecordModel>,
    cache2: Seq<(RecordModel, u32)>,
    cur2: Option<u32>,
    next2: u32,
    max2: u32,
) -> bool {
    let (h, created, cache_after, next_after, max_after) = match first_match(cache, def, eq) {
        Some(i) => (cache[i].1, Seq::<RecordModel>::empty(), cache, next, max),
        None => (
            next,
            seq![with_handle(def, next)],
            cache.push((with_handle(def, next), next)),
            (next + 1) as u32,
            if max >= next {
                max
            } else {
                next
            },
        ),
    };
    &&& out == created + (if cur == Some(h) {
        Seq::<RecordModel>::empty()
    } else {
        seq![RecordModel::SelectObject(h)]
    })
    &&& cache2 == cache_after
    &&& next2 == next_after
    &&& max2 == max_after
    &&& cur2 == Some(h)
}

proof fn lemma_first_match(
    cache: Seq<(RecordModel, u32)>,
    rec: RecordModel,
    eq: spec_fn(RecordModel, RecordModel) -> bool,
    i: int,
)
    requires
        0 <= i <= cache.len(),
        forall|k: int| 0 <= k < i ==> !eq(#[trigger] cache[k].0, rec),
    ensures
        i < cache.len() && eq(cache[i].0, rec) ==> first_match(cache, rec, eq) == Some(i),
        i == cache.len() ==> first_match(cache, rec, eq) is None,
    decreases cache.len(),
{
    if cache.len() > 0 && i > 0 {
        let rest = cache.subrange(1, cache.len() as int);
        assert forall|k: int| 0 <= k < i - 1 implies !eq(#[trigger] rest[k].0, rec) by {
            assert(rest[k] == cache[k + 1]);
        }
        lemma_first_match(rest, rec, eq, i - 1);
        if i < cache.len() {
            assert(rest[i - 1] == cache[i]);
        }
    }
}

/// The first cached definition equal to `def` (pens when `pen`, brushes otherwise).
fn find_cached(cache: &Vec<(EmfRecord, u32)>, def: &EmfRecord, pen: bool) -> (r: Option<usize>)
    ensures
        match r {
            Some(i) => i < cache@.len() && first_match(
                cache@.map_values(|e: (EmfRecord, u32)| (e.0@, e.1)),
                def@,
                if pen {
                    pen_eq()
                } else {
                    brush_eq()
                },
            ) == Some(i as int),
            None => first_match(
                cache@.map_values(|e: (EmfRecord, u32)| (e.0@, e.1)),
                def@,
                if pen {
                    pen_eq()
                } else {
                    brush_eq()
                },
            ) is None,
        },
{
    let ghost m = cache@.map_values(|e: (EmfRecord, u32)| (e.0@, e.1));
    let ghost eq = if pen {
        pen_eq()
    } else {
        brush_eq()
    };
    let mut i: usize = 0;
    while i < cache.len()
        invariant
            i <= cache@.len(),
            m == cache@.map_values(|e: (EmfRecord, u32)| (e.0@, e.1)),
            eq == (if pen {
                pen_eq()
            } else {
                brush_eq()
            }),
            forall|k: int| 0 <= k < i ==> !eq(#[trigger] m[k].0, def@),
        decreases cache@.len() - i,
    {
        let same = if pen {
            pen_eq_ignoring_handle(&cache[i].0, def)
        } else {
            brush_eq_ignoring_handle(&cache[i].0, def)
        };
        if same {
            proof {
                lemma_first_match(m, def@, eq, i as int);
            }
            return Some(i);
        }
        i = i + 1;
    }
    proof {
        lemma_first_match(m, def@, eq, i as int);
    }
    None
}

fn copy_u32s(v: &Vec<u32>) -> (r: Vec<u32>)
    ensures
        r@ == v@,
{
    let mut r: Vec<u32> = Vec::new();
    let mut i: usize = 0;
    while i < v.len()
        invariant
            i <= v@.len(),
            r@ == v@.subrange(0, i as int),
        decreases v@.len() - i,
    {
        r.push(v[i]);
        i = i + 1;
        assert(r@ =~= v@.subrange(0, i as int));
    }
    assert(v@.subrange(0, v@.len() as int) =~= v@);
    r
}

/// The definition `rec` written under handle `h`.
fn record_with_handle(rec: &EmfRecord, h: u32) -> (r: EmfRecord)
    requires
        rec@ is ExtCreatePen || rec@ is CreateBrushIndirect,
    ensures
        r@ == with_handle(rec@, h),
{
    match rec {
        EmfRecord::ExtCreatePen { style, width, brush_style, color, hatch, style_entries, .. } => {
            EmfRecord::ExtCreatePen {
                ih: h,
                style: *style,
                width: *width,
                brush_style: *brush_style,
                color: *color,
                hatch: *hatch,
                style_entries: copy_u32s(style_entries),
            }
        },
        EmfRecord::CreateBrushIndirect { style, color, hatch, .. } => {
            EmfRecord::CreateBrushIndirect { ih: h, style: *style, color: *color, hatch: *hatch }
        },
        _ => EmfRecord::Eof,
    }
}

/// The handle a pen or brush definition is written under.
pub open spec fn handle_of(rec: RecordModel) -> Option<u32> {
    match rec {
        RecordModel::ExtCreatePen { ih, .. } => Some(ih),
        RecordModel::CreateBrushIndirect { ih, .. } => Some(ih),
        _ => None,
    }
}

/// A cache whose definitions are written under their own handles, each
/// handle below the next one to allocate and at most the largest allocated.
pub open spec fn cache_ok(cache: Seq<(RecordModel, u32)>, next: u32, max: u32) -> bool {
    forall|i: int|
        0 <= i < cache.len() ==> handle_of(#[trigger] cache[i].0) == Some(cache[i].1) && cache[i].1
            < next && cache[i].1 <= max
}

/// Whether a handle is cached.
pub open spec fn cached(cache: Seq<(RecordModel, u32)>, h: u32) -> bool {
    exists|i: int| 0 <= i < cache.len() && #[trigger] cache[i].1 == h
}

impl GdiModel {
    /// The bookkeeping invariant: every cached pen and brush is written under
    /// its own handle, all handles are distinct and were allocated, and the
    /// selected pen and brush are cached ones.
    pub open spec fn wf(self) -> bool {
        &&& 1 <= self.next_handle
        &&& cache_ok(self.pens, self.next_handle, self.max_handle)
        &&& cache_ok(self.brushes, self.next_handle, self.max_handle)
        &&& forall|i: int, j: int|
            0 <= i < j < self.pens.len() ==> #[trigger] self.pens[i].1 != #[trigger] self.pens[j].1
        &&& forall|i: int, j: int|
            0 <= i < j < self.brushes.len() ==> #[trigger] self.brushes[i].1
                != #[trigger] self.brushes[j].1
        &&& forall|i: int, j: int|
            0 <= i < self.pens.len() && 0 <= j < self.brushes.len() ==> #[trigger] self.pens[i].1
                != #[trigger] self.brushes[j].1
        &&& (self.cur_pen matches Some(h) ==> cached(self.pens, h))
        &&& (self.cur_brush matches Some(h) ==> cached(self.brushes, h))
    }
}

proof fn lemma_first_match_in(
    cache: Seq<(RecordModel, u32)>,
    rec: RecordModel,
    eq: spec_fn(RecordModel, RecordModel) -> bool,
)
    ensures
        first_match(cache, rec, eq) matches Some(i) ==> 0 <= i < cache.len(),
    decreases cache.len(),
{
    if cache.len() > 0 {
        lemma_first_match_in(cache.subrange(1, cache.len() as int), rec, eq);
    }
}

/// Selecting a pen or a brush keeps the bookkeeping invariant.
pub proof fn lemma_select_keeps_wf(
    before: GdiModel,
    after: GdiModel,
    def: RecordModel,
    pen: bool,
    out: Seq<RecordModel>,
)
    requires
        before.wf(),
        before.next_handle < u32::MAX,
        def is ExtCreatePen || def is CreateBrushIndirect,
        pen ==> select_step(
            before.pens,
            before.cur_pen,
            before.next_handle,
            before.max_handle,
            def,
            pen_eq(),
            out,
            after.pens,
            after.cur_pen,
            after.next_handle,
            after.max_handle,
        ) && after.brushes == before.brushes && after.cur_brush == before.cur_brush,
        !pen ==> select_step(
            before.brushes,
            before.cur_brush,
            before.next_handle,
            before.max_handle,
            def,
            brush_eq(),
            out,
            after.brushes,
            after.cur_brush,
            after.next_handle,
            after.max_handle,
        ) && after.pens == before.pens && after.cur_pen == before.cur_pen,
    ensures
        after.wf(),
{
    let cache = if pen {
        before.pens
    } else {
        before.brushes
    };
    let eq = if pen {
        pen_eq()
    } else {
        brush_eq()
    };
    lemma_first_match_in(cache, def, eq);
    match first_match(cache, def, eq) {
        Some(i) => {
            assert(cache[i].1 == cache[i].1);
        },
        None => {
            let n = cache.len();
            let h = before.next_handle;
            let c2 = cache.push((with_handle(def, h), h));
            assert(c2[n as int].1 == h);
            assert forall|k: int| 0 <= k < n implies #[trigger] c2[k] == cache[k] by {}
            if pen {
                assert(after.pens == c2);
                assert forall|i: int, j: int| 0 <= i < j < after.pens.len() implies #[trigger] after.pens[i].1
                    != #[trigger] after.pens[j].1 by {
                    if j == n {
                        assert(after.pens[i] == before.pens[i]);
                        assert(handle_of(before.pens[i].0) == Some(before.pens[i].1));
                    }
                }
                assert forall|i: int, j: int|
                    0 <= i < after.pens.len() && 0 <= j < after.brushes.len() implies #[trigger] after.pens[i].1
                    != #[trigger] after.brushes[j].1 by {
                    if i == n {
                        assert(after.brushes[j] == before.brushes[j]);
                        assert(handle_of(before.brushes[j].0) == Some(before.brushes[j].1));
                    } else {
                        assert(after.pens[i] == before.pens[i]);
                    }
                }
            } else {
                assert(after.brushes == c2);
                assert forall|i: int, j: int|
                    0 <= i < j < after.brushes.len() implies #[trigger] after.brushes[i].1
                    != #[trigger] after.brushes[j].1 by {
                    if j == n {
                        assert(after.brushes[i] == before.brushes[i]);
                        assert(handle_of(before.brushes[i].0) == Some(before.brushes[i].1));
                    }
                }
                assert forall|i: int, j: int|
                    0 <= i < after.pens.len() && 0 <= j < after.brushes.len() implies #[trigger] after.pens[i].1
                    != #[trigger] after.brushes[j].1 by {
                    if j == n {
                        assert(after.pens[i] == before.pens[i]);
                        assert(handle_of(before.pens[i].0) == Some(before.pens[i].1));
                    } else {
                        assert(after.brushes[j] == before.brushes[j]);
                    }
                }
            }
        },
    }
}

impl GdiObjects {
    /// No objects yet; handle 0 is reserved, so the first one created is 1.
    pub fn new() -> (g: Self)
        ensures
            g@.next_handle == 1,
            g@.max_handle == 0,
            g@.pens.len() == 0,
            g@.brushes.len() == 0,
            g@.cur_pen is None,
            g@.cur_brush is None,
            g@.wf(),
    {
        let g = GdiObjects {
            next_handle: 1,
            max_handle: 0,
            pens: Vec::new(),
            brushes: Vec::new(),
            cur_pen: None,
            cur_brush: None,
        };
        proof {
            assert(g@.pens =~= Seq::<(RecordModel, u32)>::empty());
            assert(g@.brushes =~= Seq::<(RecordModel, u32)>::empty());
        }
        g
    }

    /// The largest handle allocated so far.
    pub fn max_handle(&self) -> (h: u32)
        ensures
            h == self@.max_handle,
    {
        self.max_handle
    }

    /// The handle the next created object will get.
    pub fn next_handle(&self) -> (h: u32)
        ensures
            h == self@.next_handle,
    {
        self.next_handle
    }

    fn alloc_handle(&mut self) -> (h: u32)
        requires
            old(self)@.next_handle < u32::MAX,
        ensures
            h == old(self)@.next_handle,
            final(self)@ == (GdiModel {
                next_handle: (h + 1) as u32,
                max_handle: if old(self)@.max_handle >= h {
                    old(self)@.max_handle
                } else {
                    h
                },
                ..old(self)@
            }),
    {
        let h = self.next_handle;
        self.next_handle = self.next_handle + 1;
        if h > self.max_handle {
            self.max_handle = h;
        }
        h
    }

    /// Select a pen for the next drawing: the null stock pen for `None`;
    /// otherwise the cached pen equal to `def`, written and cached first
    /// under a new handle when there is none.
    pub fn select_pen(&mut self, records: &mut Vec<EmfRecord>, def: Option<EmfRecord>)
        requires
            def matches Some(d) ==> d@ is ExtCreatePen,
            old(self)@.next_handle < u32::MAX,
        ensures
            extends(records_view(old(records)@), records_view(final(records)@)),
            old(self)@.wf() ==> final(self)@.wf(),
            final(self)@.brushes == old(self)@.brushes,
            final(self)@.cur_brush == old(self)@.cur_brush,
            match def {
                None => {
                    &&& appended(records_view(old(records)@), records_view(final(records)@))
                        == seq![RecordModel::SelectObject(STOCK_OBJECT_FLAG | NULL_PEN)]
                    &&& final(self)@ == (GdiModel { cur_pen: None, ..old(self)@ })
                },
                Some(d) => select_step(
                    old(self)@.pens,
                    old(self)@.cur_pen,
                    old(self)@.next_handle,
                    old(self)@.max_handle,
                    d@,
                    pen_eq(),
                    appended(records_view(old(records)@), records_view(final(records)@)),
                    final(self)@.pens,
                    final(self)@.cur_pen,
                    final(self)@.next_handle,
                    final(self)@.max_handle,
                ),
            },
    {
        let ghost r0 = records_view(records@);
        match def {
            None => {
                // NULL pen (stock object) so the path is not stroked.
                records.push(EmfRecord::SelectObject(STOCK_OBJECT_FLAG | NULL_PEN));
                self.cur_pen = None;
                proof {
                    assert(records_view(records@) =~= r0.push(
                        RecordModel::SelectObject(STOCK_OBJECT_FLAG | NULL_PEN),
                    ));
                    assert(appended(r0, records_view(records@)) =~= seq![
                        RecordModel::SelectObject(STOCK_OBJECT_FLAG | NULL_PEN),
                    ]);
                    assert(records_view(records@).subrange(0, r0.len() as int) =~= r0);
                    assert(self@.pens =~= old(self)@.pens);
                    assert(self@.brushes =~= old(self)@.brushes);
                }
            },
            Some(d) => {
                // Look for an existing identical pen (ignoring the handle field).
                let found = find_cached(&self.pens, &d, true);
                let ghost other = self@;
                let handle = match found {
                    Some(i) => self.pens[i].1,
                    None => {
                        let h = self.alloc_handle();
                        let ghost rv = records_view(records@);
                        records.push(record_with_handle(&d, h));
                        assert(records_view(records@) =~= rv.push(with_handle(d@, h)));
                        let ghost cv = self@.pens;
                        self.pens.push((record_with_handle(&d, h), h));
                        assert(self@.pens =~= cv.push((with_handle(d@, h), h)));
                        h
                    },
                };
                let ghost r1 = records_view(records@);
                if self.cur_pen != Some(handle) {
                    records.push(EmfRecord::SelectObject(handle));
                    assert(records_view(records@) =~= r1.push(RecordModel::SelectObject(handle)));
                    self.cur_pen = Some(handle);
                }
                proof {
                    let created = match found {
                        Some(i) => Seq::<RecordModel>::empty(),
                        None => seq![with_handle(d@, handle)],
                    };
                    let sel = if other.cur_pen == Some(handle) {
                        Seq::<RecordModel>::empty()
                    } else {
                        seq![RecordModel::SelectObject(handle)]
                    };
                    assert(appended(r0, records_view(records@)) =~= created + sel);
                    assert(self@.pens =~= match found {
                        Some(i) => old(self)@.pens,
                        None => old(self)@.pens.push((with_handle(d@, handle), handle)),
                    });
                    assert(records_view(records@).subrange(0, r0.len() as int) =~= r0);
                    assert(extends(r0, records_view(records@)));
                    if old(self)@.wf() {
                        lemma_select_keeps_wf(old(self)@, self@, d@, true, created + sel);
                    }
                }
            },
        }
    }

    /// Select a brush for the next drawing: the null stock brush for `None`;
    /// otherwise the cached solid brush of that color, written and cached
    /// first under a new handle when there is none.
    pub fn select_brush(&mut self, records: &mut Vec<EmfRecord>, color: Option<ColorRef>)
        requires
            old(self)@.next_handle < u32::MAX,
        ensures
            extends(records_view(old(records)@), records_view(final(records)@)),
            old(self)@.wf() ==> final(self)@.wf(),
            final(self)@.pens == old(self)@.pens,
            final(self)@.cur_pen == old(self)@.cur_pen,
            match color {
                None => {
                    &&& appended(records_view(old(records)@), records_view(final(records)@))
                        == seq![RecordModel::SelectObject(STOCK_OBJECT_FLAG | NULL_BRUSH)]
                    &&& final(self)@ == (GdiModel { cur_brush: None, ..old(self)@ })
                },
                Some(c) => select_step(
                    old(self)@.brushes,
                    old(self)@.cur_brush,
                    old(self)@.next_handle,
                    old(self)@.max_handle,
                    RecordModel::CreateBrushIndirect { ih: 0, style: BS_SOLID, color: c, hatch: 0 },
                    brush_eq(),
                    appended(records_view(old(records)@), records_view(final(records)@)),
                    final(self)@.brushes,
                    final(self)@.cur_brush,
                    final(self)@.next_handle,
                    final(self)@.max_handle,
                ),
            },
    {
        let ghost r0 = records_view(records@);
        match color {
            None => {
                records.push(EmfRecord::SelectObject(STOCK_OBJECT_FLAG | NULL_BRUSH));
                self.cur_brush = None;
                proof {
                    assert(records_view(records@) =~= r0.push(
                        RecordModel::SelectObject(STOCK_OBJECT_FLAG | NULL_BRUSH),
                    ));
                    assert(appended(r0, records_view(records@)) =~= seq![
                        RecordModel::SelectObject(STOCK_OBJECT_FLAG | NULL_BRUSH),
                    ]);
                    assert(records_view(records@).subrange(0, r0.len() as int) =~= r0);
                    assert(self@.pens =~= old(self)@.pens);
                    assert(self@.brushes =~= old(self)@.brushes);
                }
            },
            Some(c) => {
                let d = EmfRecord::CreateBrushIndirect { ih: 0, style: BS_SOLID, color: c, hatch: 0 };
                let found = find_cached(&self.brushes, &d, false);
                let ghost other = self@;
                let handle = match found {
                    Some(i) => self.brushes[i].1,
                    None => {
                        let h = self.alloc_handle();
                        let ghost rv = records_view(records@);
                        records.push(record_with_handle(&d, h));
                        assert(records_view(records@) =~= rv.push(with_handle(d@, h)));
                        let ghost cv = self@.brushes;
                        self.brushes.push((record_with_handle(&d, h), h));
                        assert(self@.brushes =~= cv.push((with_handle(d@, h), h)));
                        h
                    },
                };
                let ghost r1 = records_view(records@);
                if self.cur_brush != Some(handle) {
                    records.push(EmfRecord::SelectObject(handle));
                    assert(records_view(records@) =~= r1.push(RecordModel::SelectObject(handle)));
                    self.cur_brush = Some(handle);
                }
                proof {
                    let created = match found {
                        Some(i) => Seq::<RecordModel>::empty(),
                        None => seq![with_handle(d@, handle)],
                    };
                    let sel = if other.cur_brush == Some(handle) {
                        Seq::<RecordModel>::empty()
                    } else {
                        seq![RecordModel::SelectObject(handle)]
                    };
                    assert(appended(r0, records_view(records@)) =~= created + sel);
                    assert(self@.brushes =~= match found {
                        Some(i) => old(self)@.brushes,
                        None => old(self)@.brushes.push((with_handle(d@, handle), handle)),
                    });
                    assert(records_view(records@).subrange(0, r0.len() as int) =~= r0);
                    assert(extends(r0, records_view(records@)));
                    if old(self)@.wf() {
                        lemma_select_keeps_wf(old(self)@, self@, d@, false, created + sel);
                    }
                }
            },
        }
    }
}

} // verus!
