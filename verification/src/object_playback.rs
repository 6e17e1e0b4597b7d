//! The emitter's pen and brush bookkeeping against playback: the records
//! that selecting a pen or a brush appends, played back, select that pen or
//! brush.

use vstd::prelude::*;
use crate::dc_state::{spec_apply, spec_brush, spec_pen, DcModel, ObjectModel};
use crate::emit_objects::{
    brush_eq, cache_ok, first_match, handle_of, pen_eq, same_brush, same_pen, select_step,
    with_handle, GdiModel,
};
use crate::records::RecordModel;
use crate::types::{NULL_BRUSH, NULL_PEN, STOCK_OBJECT_FLAG};

verus! {

/// The object playback stores for a pen or brush definition.
pub open spec fn created_object(rec: RecordModel) -> Option<ObjectModel> {
    match rec {
        RecordModel::ExtCreatePen { style, width, color, style_entries, .. } => Some(
            ObjectModel::Pen(spec_pen(style, width, color, true, style_entries)),
        ),
        RecordModel::CreateBrushIndirect { style, color, .. } => Some(
            ObjectModel::Brush(spec_brush(style, color)),
        ),
        _ => None,
    }
}

/// Playback of a record sequence on the state and the object table: each
/// record that changes them applied in order, the others passed over.
pub open spec fn play_state(dc: DcModel, objs: Map<u32, ObjectModel>, rs: Seq<RecordModel>) -> (
    DcModel,
    Map<u32, ObjectModel>,
)
    decreases rs.len(),
{
    if rs.len() == 0 {
        (dc, objs)
    } else {
        let next = match spec_apply(dc, objs, rs[0]) {
            Some(p) => p,
            None => (dc, objs),
        };
        play_state(next.0, next.1, rs.drop_first())
    }
}

/// Playback agrees with the emitter's bookkeeping: each cached definition's
/// object is in the table under its handle, and the selected pen and brush
/// are those of the selected cached definitions.
pub open spec fn agrees(g: GdiModel, dc: DcModel, objs: Map<u32, ObjectModel>) -> bool {
    &&& forall|i: int|
        0 <= i < g.pens.len() ==> objs.contains_key(#[trigger] g.pens[i].1) && Some(objs[g.pens[i].1])
            == created_object(g.pens[i].0)
    &&& forall|i: int|
        0 <= i < g.brushes.len() ==> objs.contains_key(#[trigger] g.brushes[i].1) && Some(
            objs[g.brushes[i].1],
        ) == created_object(g.brushes[i].0)
    &&& (g.cur_pen matches Some(h) ==> exists|i: int|
        0 <= i < g.pens.len() && #[trigger] g.pens[i].1 == h && created_object(g.pens[i].0) == Some(
            ObjectModel::Pen(dc.pen),
        ))
    &&& (g.cur_brush matches Some(h) ==> exists|i: int|
        0 <= i < g.brushes.len() && #[trigger] g.brushes[i].1 == h && created_object(g.brushes[i].0)
            == Some(ObjectModel::Brush(dc.brush)))
}

proof fn lemma_play_one(dc: DcModel, objs: Map<u32, ObjectModel>, a: RecordModel)
    requires
        spec_apply(dc, objs, a) is Some,
    ensures
        play_state(dc, objs, seq![a]) == spec_apply(dc, objs, a)->0,
{
    let p = spec_apply(dc, objs, a)->0;
    assert(seq![a].drop_first() =~= Seq::<RecordModel>::empty());
    assert(play_state(p.0, p.1, Seq::<RecordModel>::empty()) == p);
}

proof fn lemma_play_two(
    dc: DcModel,
    objs: Map<u32, ObjectModel>,
    a: RecordModel,
    b: RecordModel,
    mid: (DcModel, Map<u32, ObjectModel>),
)
    requires
        spec_apply(dc, objs, a) == Some(mid),
        spec_apply(mid.0, mid.1, b) is Some,
    ensures
        play_state(dc, objs, seq![a, b]) == spec_apply(mid.0, mid.1, b)->0,
{
    assert(seq![a, b].drop_first() =~= seq![b]);
    lemma_play_one(mid.0, mid.1, b);
}

proof fn lemma_first_match_bounds(
    cache: Seq<(RecordModel, u32)>,
    rec: RecordModel,
    eq: spec_fn(RecordModel, RecordModel) -> bool,
)
    ensures
        first_match(cache, rec, eq) matches Some(i) ==> 0 <= i < cache.len() && eq(cache[i].0, rec),
    decreases cache.len(),
{
    if cache.len() > 0 {
        let rest = cache.subrange(1, cache.len() as int);
        lemma_first_match_bounds(rest, rec, eq);
        if let Some(i) = first_match(rest, rec, eq) {
            assert(rest[i] == cache[i + 1]);
        }
    }
}

/// Handles below the stock flag are not stock objects.
proof fn lemma_not_stock(h: u32)
    requires
        h < STOCK_OBJECT_FLAG,
    ensures
        h & STOCK_OBJECT_FLAG == 0,
{
    assert(h < 0x8000_0000u32 ==> h & 0x8000_0000u32 == 0) by (bit_vector);
}

/// Selecting a pen, played back: after the records that selecting pen
/// definition `def` appends (`out`) are played, playback has the pen `def`
/// defines selected, nothing else of its state changed, and it still agrees
/// with the emitter's bookkeeping; handles stay below the stock-object flag.
pub proof fn lemma_selected_pen_plays_back(
    g: GdiModel,
    g2: GdiModel,
    dc: DcModel,
    objs: Map<u32, ObjectModel>,
    def: RecordModel,
    out: Seq<RecordModel>,
)
    requires
        g.wf(),
        agrees(g, dc, objs),
        g.next_handle < STOCK_OBJECT_FLAG,
        def is ExtCreatePen,
        select_step(
            g.pens,
            g.cur_pen,
            g.next_handle,
            g.max_handle,
            def,
            pen_eq(),
            out,
            g2.pens,
            g2.cur_pen,
            g2.next_handle,
            g2.max_handle,
        ),
        g2.brushes == g.brushes,
        g2.cur_brush == g.cur_brush,
    ensures
        ({
            let (dc2, objs2) = play_state(dc, objs, out);
            &&& created_object(def) == Some(ObjectModel::Pen(dc2.pen))
            &&& dc2 == (DcModel { pen: dc2.pen, ..dc })
            &&& agrees(g2, dc2, objs2)
        }),
{
    lemma_first_match_bounds(g.pens, def, pen_eq());
    match first_match(g.pens, def, pen_eq()) {
        Some(i) => {
            let h = g.pens[i].1;
            assert(same_pen(g.pens[i].0, def));
            assert(handle_of(g.pens[i].0) == Some(h));
            assert(created_object(g.pens[i].0) == created_object(def));
            if g.cur_pen == Some(h) {
                assert(out =~= Seq::<RecordModel>::empty());
                let j = choose|j: int|
                    0 <= j < g.pens.len() && #[trigger] g.pens[j].1 == h && created_object(g.pens[j].0)
                        == Some(ObjectModel::Pen(dc.pen));
                if j != i {
                    if j < i {
                        assert(g.pens[j].1 != g.pens[i].1);
                    } else {
                        assert(g.pens[i].1 != g.pens[j].1);
                    }
                }
                assert(play_state(dc, objs, out) == (dc, objs));
            } else {
                assert(out =~= seq![RecordModel::SelectObject(h)]);
                lemma_not_stock(h);
                assert(objs.contains_key(g.pens[i].1));
                lemma_play_one(dc, objs, RecordModel::SelectObject(h));
                let dc2 = play_state(dc, objs, out).0;
                assert(dc2 == (DcModel { pen: dc2.pen, ..dc }));
                assert(exists|k: int|
                    0 <= k < g2.pens.len() && #[trigger] g2.pens[k].1 == h && created_object(
                        g2.pens[k].0,
                    ) == Some(ObjectModel::Pen(dc2.pen)));
            }
        },
        None => {
            let n = g.next_handle;
            let rec = with_handle(def, n);
            assert(created_object(rec) == created_object(def));
            assert(g.cur_pen != Some(n)) by {
                if let Some(c) = g.cur_pen {
                    let k = choose|k: int| 0 <= k < g.pens.len() && #[trigger] g.pens[k].1 == c;
                    assert(g.pens[k].1 < n);
                }
            }
            assert(out =~= seq![rec, RecordModel::SelectObject(n)]);
            let objs1 = objs.insert(n, created_object(def)->0);
            assert(spec_apply(dc, objs, rec) == Some((dc, objs1)));
            lemma_not_stock(n);
            lemma_play_two(dc, objs, rec, RecordModel::SelectObject(n), (dc, objs1));
            let (dc2, objs2) = play_state(dc, objs, out);
            assert(objs2 == objs1);
            assert(dc2 == (DcModel { pen: dc2.pen, ..dc }));
            let len = g.pens.len();
            assert(g2.pens == g.pens.push((rec, n)));
            assert forall|i: int| 0 <= i < g2.pens.len() implies objs2.contains_key(
                #[trigger] g2.pens[i].1,
            ) && Some(objs2[g2.pens[i].1]) == created_object(g2.pens[i].0) by {
                if i < len {
                    assert(g2.pens[i] == g.pens[i]);
                    assert(g.pens[i].1 < n);
                }
            }
            assert forall|i: int| 0 <= i < g2.brushes.len() implies objs2.contains_key(
                #[trigger] g2.brushes[i].1,
            ) && Some(objs2[g2.brushes[i].1]) == created_object(g2.brushes[i].0) by {
                assert(g.brushes[i].1 < n);
            }
            assert(g2.pens[len as int].1 == n);
        },
    }
}

/// Selecting a brush, played back: after the records that selecting brush
/// definition `def` appends (`out`) are played, playback has the brush `def`
/// defines selected, nothing else of its state changed, and it still agrees
/// with the emitter's bookkeeping; handles stay below the stock-object flag.
pub proof fn lemma_selected_brush_plays_back(
    g: GdiModel,
    g2: GdiModel,
    dc: DcModel,
    objs: Map<u32, ObjectModel>,
    def: RecordModel,
    out: Seq<RecordModel>,
)
    requires
        g.wf(),
        agrees(g, dc, objs),
        g.next_handle < STOCK_OBJECT_FLAG,
        def is CreateBrushIndirect,
        select_step(
            g.brushes,
            g.cur_brush,
            g.next_handle,
            g.max_handle,
            def,
            brush_eq(),
            out,
            g2.brushes,
            g2.cur_brush,
            g2.next_handle,
            g2.max_handle,
        ),
        g2.pens == g.pens,
        g2.cur_pen == g.cur_pen,
    ensures
        ({
            let (dc2, objs2) = play_state(dc, objs, out);
            &&& created_object(def) == Some(ObjectModel::Brush(dc2.brush))
            &&& dc2 == (DcModel { brush: dc2.brush, ..dc })
            &&& agrees(g2, dc2, objs2)
        }),
{
    lemma_first_match_bounds(g.brushes, def, brush_eq());
    match first_match(g.brushes, def, brush_eq()) {
        Some(i) => {
            let h = g.brushes[i].1;
            assert(same_brush(g.brushes[i].0, def));
            assert(handle_of(g.brushes[i].0) == Some(h));
            assert(created_object(g.brushes[i].0) == created_object(def));
            if g.cur_brush == Some(h) {
                assert(out =~= Seq::<RecordModel>::empty());
                let j = choose|j: int|
                    0 <= j < g.brushes.len() && #[trigger] g.brushes[j].1 == h && created_object(
                        g.brushes[j].0,
                    ) == Some(ObjectModel::Brush(dc.brush));
                if j != i {
                    if j < i {
                        assert(g.brushes[j].1 != g.brushes[i].1);
                    } else {
                        assert(g.brushes[i].1 != g.brushes[j].1);
                    }
                }
                assert(play_state(dc, objs, out) == (dc, objs));
            } else {
                assert(out =~= seq![RecordModel::SelectObject(h)]);
                lemma_not_stock(h);
                assert(objs.contains_key(g.brushes[i].1));
                lemma_play_one(dc, objs, RecordModel::SelectObject(h));
                let dc2 = play_state(dc, objs, out).0;
                assert(dc2 == (DcModel { brush: dc2.brush, ..dc }));
                assert(exists|k: int|
                    0 <= k < g2.brushes.len() && #[trigger] g2.brushes[k].1 == h && created_object(
                        g2.brushes[k].0,
                    ) == Some(ObjectModel::Brush(dc2.brush)));
            }
        },
        None => {
            let n = g.next_handle;
            let rec = with_handle(def, n);
            assert(created_object(rec) == created_object(def));
            assert(g.cur_brush != Some(n)) by {
                if let Some(c) = g.cur_brush {
                    let k = choose|k: int| 0 <= k < g.brushes.len() && #[trigger] g.brushes[k].1 == c;
                    assert(g.brushes[k].1 < n);
                }
            }
            assert(out =~= seq![rec, RecordModel::SelectObject(n)]);
            let objs1 = objs.insert(n, created_object(def)->0);
            assert(spec_apply(dc, objs, rec) == Some((dc, objs1)));
            lemma_not_stock(n);
            lemma_play_two(dc, objs, rec, RecordModel::SelectObject(n), (dc, objs1));
            let (dc2, objs2) = play_state(dc, objs, out);
            assert(objs2 == objs1);
            assert(dc2 == (DcModel { brush: dc2.brush, ..dc }));
            let len = g.brushes.len();
            assert(g2.brushes == g.brushes.push((rec, n)));
            assert forall|i: int| 0 <= i < g2.brushes.len() implies objs2.contains_key(
                #[trigger] g2.brushes[i].1,
            ) && Some(objs2[g2.brushes[i].1]) == created_object(g2.brushes[i].0) by {
                if i < len {
                    assert(g2.brushes[i] == g.brushes[i]);
                    assert(g.brushes[i].1 < n);
                }
            }
            assert forall|i: int| 0 <= i < g2.pens.len() implies objs2.contains_key(
                #[trigger] g2.pens[i].1,
            ) && Some(objs2[g2.pens[i].1]) == created_object(g2.pens[i].0) by {
                assert(g.pens[i].1 < n);
            }
            assert(g2.brushes[len as int].1 == n);
        },
    }
}

/// Selecting no pen or no brush, played back: the stock null pen (brush)
/// that the emitter selects leaves playback without a pen (brush), nothing
/// else changed, still agreeing with the bookkeeping.
pub proof fn lemma_null_selection_plays_back(g: GdiModel, dc: DcModel, objs: Map<u32, ObjectModel>)
    requires
        agrees(g, dc, objs),
    ensures
        play_state(dc, objs, seq![RecordModel::SelectObject(STOCK_OBJECT_FLAG | NULL_PEN)])
            == (DcModel { pen: None, ..dc }, objs),
        agrees(GdiModel { cur_pen: None, ..g }, DcModel { pen: None, ..dc }, objs),
        play_state(dc, objs, seq![RecordModel::SelectObject(STOCK_OBJECT_FLAG | NULL_BRUSH)])
            == (DcModel { brush: None, ..dc }, objs),
        agrees(GdiModel { cur_brush: None, ..g }, DcModel { brush: None, ..dc }, objs),
{
    let p = 0x8000_0008u32;
    let b = 0x8000_0005u32;
    assert(0x8000_0008u32 & 0x8000_0000u32 != 0 && 0x8000_0008u32 & !0x8000_0000u32 == 8)
        by (bit_vector);
    assert(0x8000_0005u32 & 0x8000_0000u32 != 0 && 0x8000_0005u32 & !0x8000_0000u32 == 5)
        by (bit_vector);
    assert(0x8000_0000u32 | 8u32 == 0x8000_0008u32) by (bit_vector);
    assert(0x8000_0000u32 | 5u32 == 0x8000_0005u32) by (bit_vector);
    lemma_play_one(dc, objs, RecordModel::SelectObject(p));
    lemma_play_one(dc, objs, RecordModel::SelectObject(b));
    let gp = GdiModel { cur_pen: None, ..g };
    let dp = DcModel { pen: None, ..dc };
    assert(agrees(gp, dp, objs)) by {
        if let Some(h) = gp.cur_brush {
            let i = choose|i: int|
                0 <= i < g.brushes.len() && #[trigger] g.brushes[i].1 == h && created_object(g.brushes[i].0)
                    == Some(ObjectModel::Brush(dc.brush));
            assert(gp.brushes[i].1 == h);
        }
    }
    let gb = GdiModel { cur_brush: None, ..g };
    let db = DcModel { brush: None, ..dc };
    assert(agrees(gb, db, objs)) by {
        if let Some(h) = gb.cur_pen {
            let i = choose|i: int|
                0 <= i < g.pens.len() && #[trigger] g.pens[i].1 == h && created_object(g.pens[i].0)
                    == Some(ObjectModel::Pen(dc.pen));
            assert(gb.pens[i].1 == h);
        }
    }
}

} // verus!
