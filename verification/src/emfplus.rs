//! Minimal EMF+ (EMF Plus) comment block for carrying advanced paint that
//! classic EMF cannot express: per-element ARGB alpha and linear gradients.
//!
//! The block is a well-formed EMF+ stream embedded in an `EMR_COMMENT`
//! (identifier `EMR_COMMENT_EMFPLUS`): an `EmfPlusHeader`, one private paint
//! table record, and `EmfPlusEndOfFile`. EMF+-aware readers skip the private
//! record by its size; classic viewers ignore the comment entirely and use
//! the solid-color fallback drawn with normal EMF records.
//!
//! Single-precision values (gradient coordinates and stop offsets) are
//! carried as their IEEE-754 bit patterns.

use vstd::prelude::*;
use crate::reader::u32s_at;
use crate::style::Rgb;
use crate::roundtrip::lemma_read_u32s;
use crate::types::EMR_COMMENT_EMFPLUS;
use crate::writer::u32s_le;
use crate::wire::{
    lemma_read_u16, lemma_read_u32, lemma_trunc32_id, len_u32, pad4, push_bytes, push_u16, push_u32, read_u16, read_u32, trunc32, u16_at, u16_le,
    u32_at, u32_le,
};

verus! {

pub const EMFPLUS_HEADER: u16 = 0x4001;

pub const EMFPLUS_EOF: u16 = 0x4002;

/// Private record type (outside the standard 0x4001..0x403A range) holding the
/// per-element paint table.
pub const EMFPLUS_OMNI_PAINT: u16 = 0x40FF;

pub const EMFPLUS_VERSION: u32 = 0xDBC0_1002;

/// A gradient stop: offset in [0,1] (as a single-precision bit pattern) and RGBA.
#[derive(Debug, Clone, Copy, PartialEq, Eq, Structural)]
pub struct PlusStop {
    pub offset: u32,
    pub r: u8,
    pub g: u8,
    pub b: u8,
    pub a: u8,
}

/// Advanced paint for one element.
#[derive(Debug, Clone, PartialEq, Eq)]
pub enum PlusPaint {
    /// Solid fill color with alpha.
    Solid { r: u8, g: u8, b: u8, a: u8 },
    /// Linear gradient fill; the endpoints are single-precision bit patterns.
    Linear { x1: u32, y1: u32, x2: u32, y2: u32, stops: Vec<PlusStop> },
    /// Stroke color with alpha.
    StrokeSolid { r: u8, g: u8, b: u8, a: u8 },
}

/// One paint-table entry, keyed by the element's emission index.
#[derive(Debug, Clone, PartialEq, Eq)]
pub struct PlusEntry {
    pub index: u32,
    pub paint: PlusPaint,
}

/// The model of a [`PlusPaint`].
pub enum PaintModel {
    Solid { r: u8, g: u8, b: u8, a: u8 },
    Linear { x1: u32, y1: u32, x2: u32, y2: u32, stops: Seq<PlusStop> },
    StrokeSolid { r: u8, g: u8, b: u8, a: u8 },
}

/// The model of a [`PlusEntry`].
pub struct EntryModel {
    pub index: u32,
    pub paint: PaintModel,
}

impl View for PlusPaint {
    type V = PaintModel;

    open spec fn view(&self) -> PaintModel {
        match self {
            PlusPaint::Solid { r, g, b, a } => PaintModel::Solid { r: *r, g: *g, b: *b, a: *a },
            PlusPaint::Linear { x1, y1, x2, y2, stops } => PaintModel::Linear {
                x1: *x1,
                y1: *y1,
                x2: *x2,
                y2: *y2,
                stops: stops@,
            },
            PlusPaint::StrokeSolid { r, g, b, a } => PaintModel::StrokeSolid {
                r: *r,
                g: *g,
                b: *b,
                a: *a,
            },
        }
    }
}

impl View for PlusEntry {
    type V = EntryModel;

    open spec fn view(&self) -> EntryModel {
        EntryModel { index: self.index, paint: self.paint@ }
    }
}

/// The models of a list of entries.
pub open spec fn entries_view(es: Seq<PlusEntry>) -> Seq<EntryModel> {
    es.map_values(|e: PlusEntry| e@)
}

// ---------------------------------------------------------------------------
// Encoding
// ---------------------------------------------------------------------------

/// Stops in order: offset bits, then r, g, b, a.
pub open spec fn stops_le(stops: Seq<PlusStop>) -> Seq<u8>
    decreases stops.len(),
{
    if stops.len() == 0 {
        seq![]
    } else {
        let s = stops.last();
        stops_le(stops.drop_last()) + u32_le(s.offset) + seq![s.r, s.g, s.b, s.a]
    }
}

/// One table entry: index, kind (0 solid, 1 linear, 2 stroke), then the paint.
pub open spec fn entry_le(e: EntryModel) -> Seq<u8> {
    u32_le(e.index) + match e.paint {
        PaintModel::Solid { r, g, b, a } => u32_le(0) + seq![r, g, b, a],
        PaintModel::Linear { x1, y1, x2, y2, stops } => u32_le(1) + u32_le(x1) + u32_le(y1)
            + u32_le(x2) + u32_le(y2) + u32_le(trunc32(stops.len() as int)) + stops_le(stops),
        PaintModel::StrokeSolid { r, g, b, a } => u32_le(2) + seq![r, g, b, a],
    }
}

/// Entries one after the other.
pub open spec fn entries_le(es: Seq<EntryModel>) -> Seq<u8>
    decreases es.len(),
{
    if es.len() == 0 {
        seq![]
    } else {
        entry_le(es[0]) + entries_le(es.subrange(1, es.len() as int))
    }
}

/// The paint table: entry count, then the entries.
pub open spec fn table_le(es: Seq<EntryModel>) -> Seq<u8> {
    u32_le(trunc32(es.len() as int)) + entries_le(es)
}

/// One EMF+ record: type, flags, size (12-byte header plus padded data),
/// data size (unpadded), data, zero padding to a multiple of 4.
pub open spec fn plus_record_le(rtype: u16, flags: u16, data: Seq<u8>) -> Seq<u8> {
    u16_le(rtype) + u16_le(flags) + u32_le(trunc32(12 + pad4(data).len() as int)) + u32_le(
        trunc32(data.len() as int),
    ) + pad4(data)
}

/// EmfPlusHeader data: version, dual-mode flag, logical DPI 96 x 96.
pub open spec fn plus_header_data() -> Seq<u8> {
    u32_le(EMFPLUS_VERSION) + u32_le(1) + u32_le(96) + u32_le(96)
}

/// The EMF+ comment payload for a paint table: the EMF+ comment identifier,
/// an EmfPlusHeader, the private paint table record, EmfPlusEndOfFile.
pub open spec fn spec_encode(es: Seq<EntryModel>) -> Seq<u8> {
    u32_le(EMR_COMMENT_EMFPLUS) + plus_record_le(EMFPLUS_HEADER, 0, plus_header_data())
        + plus_record_le(EMFPLUS_OMNI_PAINT, 0, table_le(es)) + plus_record_le(
        EMFPLUS_EOF,
        0,
        seq![],
    )
}

proof fn lemma_entries_le_snoc(es: Seq<EntryModel>, e: EntryModel)
    ensures
        entries_le(es.push(e)) == entries_le(es) + entry_le(e),
    decreases es.len(),
{
    let s = es.push(e);
    if es.len() == 0 {
        assert(s.subrange(1, 1) =~= Seq::<EntryModel>::empty());
        assert(entries_le(s.subrange(1, 1)) =~= Seq::<u8>::empty());
        assert(entries_le(s) =~= entries_le(es) + entry_le(e));
    } else {
        let tail = es.subrange(1, es.len() as int);
        lemma_entries_le_snoc(tail, e);
        assert(s.subrange(1, s.len() as int) =~= tail.push(e));
        assert(entries_le(s) =~= entries_le(es) + entry_le(e));
    }
}

/// Byte buffer with little-endian push helpers.
struct W(Vec<u8>);

impl W {
    fn u16(&mut self, v: u16)
        ensures
            final(self).0@ == old(self).0@ + u16_le(v),
    {
        push_u16(&mut self.0, v);
    }

    fn u32(&mut self, v: u32)
        ensures
            final(self).0@ == old(self).0@ + u32_le(v),
    {
        push_u32(&mut self.0, v);
    }

    /// A single-precision value given by its bit pattern.
    fn f32_bits(&mut self, v: u32)
        ensures
            final(self).0@ == old(self).0@ + u32_le(v),
    {
        push_u32(&mut self.0, v);
    }

    fn bytes4(&mut self, r: u8, g: u8, b: u8, a: u8)
        ensures
            final(self).0@ == old(self).0@ + seq![r, g, b, a],
    {
        self.0.push(r);
        self.0.push(g);
        self.0.push(b);
        self.0.push(a);
        assert(self.0@ =~= old(self).0@ + seq![r, g, b, a]);
    }
}

/// `12 + n` reduced to 32 bits.
fn size_field(n: usize) -> (r: u32)
    ensures
        r == trunc32(12 + n),
{
    proof {
        crate::wire::lemma_trunc32_add(n as int, 12);
    }
    len_u32(n).wrapping_add(12)
}

/// Append `n` zero bytes.
fn push_zeros(out: &mut Vec<u8>, n: usize)
    ensures
        final(out)@ == old(out)@ + Seq::new(n as nat, |k: int| 0u8),
{
    let mut j: usize = 0;
    while j < n
        invariant
            j <= n,
            out@ == old(out)@ + Seq::new(j as nat, |k: int| 0u8),
        decreases n - j,
    {
        out.push(0);
        j = j + 1;
        assert(out@ =~= old(out)@ + Seq::new(j as nat, |k: int| 0u8));
    }
}

/// Append one EMF+ record.
fn plus_record(out: &mut W, rtype: u16, flags: u16, data: &[u8])
    requires
        data@.len() + 3 <= usize::MAX,
    ensures
        final(out).0@ == old(out).0@ + plus_record_le(rtype, flags, data@),
{
    let pad: usize = (4 - data.len() % 4) % 4;
    let padded = data.len() + pad;
    out.u16(rtype);
    out.u16(flags);
    out.u32(size_field(padded));
    out.u32(len_u32(data.len()));
    push_bytes(&mut out.0, data);
    push_zeros(&mut out.0, pad);
    proof {
        assert(data@ + Seq::new(pad as nat, |k: int| 0u8) =~= pad4(data@));
        assert(out.0@ =~= old(out).0@ + plus_record_le(rtype, flags, data@));
    }
}


/// Append one paint-table entry.
fn encode_entry(tbl: &mut W, e: &PlusEntry)
    ensures
        final(tbl).0@ == old(tbl).0@ + entry_le(e@),
{
    tbl.u32(e.index);
    match &e.paint {
        PlusPaint::Solid { r, g, b, a } => {
            tbl.u32(0);
            tbl.bytes4(*r, *g, *b, *a);
        },
        PlusPaint::Linear { x1, y1, x2, y2, stops } => {
            tbl.u32(1);
            tbl.f32_bits(*x1);
            tbl.f32_bits(*y1);
            tbl.f32_bits(*x2);
            tbl.f32_bits(*y2);
            tbl.u32(len_u32(stops.len()));
            let ghost head = tbl.0@;
            let mut i: usize = 0;
            while i < stops.len()
                invariant
                    i <= stops@.len(),
                    tbl.0@ == head + stops_le(stops@.subrange(0, i as int)),
                decreases stops@.len() - i,
            {
                let s = stops[i];
                tbl.f32_bits(s.offset);
                tbl.bytes4(s.r, s.g, s.b, s.a);
                proof {
                    assert(stops@.subrange(0, i + 1).drop_last() =~= stops@.subrange(0, i as int));
                }
                i = i + 1;
                assert(tbl.0@ =~= head + stops_le(stops@.subrange(0, i as int)));
            }
            assert(stops@.subrange(0, stops@.len() as int) =~= stops@);
        },
        PlusPaint::StrokeSolid { r, g, b, a } => {
            tbl.u32(2);
            tbl.bytes4(*r, *g, *b, *a);
        },
    }
    assert(tbl.0@ =~= old(tbl).0@ + entry_le(e@));
}

/// Encode a paint table into an EMF+ comment payload (including the leading
/// EMF+ comment identifier).
pub fn encode(entries: &[PlusEntry]) -> (out: Vec<u8>)
    requires
        table_le(entries_view(entries@)).len() + 3 <= usize::MAX,
    ensures
        out@ == spec_encode(entries_view(entries@)),
{
    let mut out = W(Vec::new());
    out.u32(EMR_COMMENT_EMFPLUS);

    let mut hdr = W(Vec::new());
    hdr.u32(EMFPLUS_VERSION);
    hdr.u32(1);  // EmfPlusFlags: dual (classic EMF present)
    hdr.u32(96);  // LogicalDpiX
    hdr.u32(96);  // LogicalDpiY
    assert(hdr.0@ =~= plus_header_data());
    plus_record(&mut out, EMFPLUS_HEADER, 0, hdr.0.as_slice());

    let mut tbl = W(Vec::new());
    tbl.u32(len_u32(entries.len()));
    let ghost count = tbl.0@;
    let mut i: usize = 0;
    while i < entries.len()
        invariant
            i <= entries@.len(),
            tbl.0@ == count + entries_le(entries_view(entries@.subrange(0, i as int))),
        decreases entries@.len() - i,
    {
        encode_entry(&mut tbl, &entries[i]);
        proof {
            lemma_entries_le_snoc(entries_view(entries@.subrange(0, i as int)), entries@[i as int]@);
            assert(entries_view(entries@.subrange(0, i + 1)) =~= entries_view(
                entries@.subrange(0, i as int),
            ).push(entries@[i as int]@));
        }
        i = i + 1;
    }
    assert(entries@.subrange(0, entries@.len() as int) =~= entries@);
    assert(tbl.0@ =~= table_le(entries_view(entries@)));
    plus_record(&mut out, EMFPLUS_OMNI_PAINT, 0, tbl.0.as_slice());

    let empty: Vec<u8> = Vec::new();
    plus_record(&mut out, EMFPLUS_EOF, 0, empty.as_slice());
    assert(empty@ =~= Seq::<u8>::empty());
    assert(out.0@ =~= spec_encode(entries_view(entries@)));
    out.0
}


} // verus!

verus! {

// ---------------------------------------------------------------------------
// Decoding
// ---------------------------------------------------------------------------

/// `n` stops of 8 bytes each starting at offset `off`.
pub open spec fn stops_at(t: Seq<u8>, off: int, n: nat) -> Seq<PlusStop> {
    Seq::new(
        n,
        |k: int|
            PlusStop {
                offset: u32_at(t, off + 8 * k),
                r: t[off + 8 * k + 4],
                g: t[off + 8 * k + 5],
                b: t[off + 8 * k + 6],
                a: t[off + 8 * k + 7],
            },
    )
}

/// The table entry at offset `off` and the offset just past it, or `None`
/// when it runs past the end or names an unknown paint kind.
pub open spec fn spec_entry(t: Seq<u8>, off: int) -> Option<(EntryModel, int)> {
    if off + 8 > t.len() {
        None
    } else {
        let index = u32_at(t, off);
        let kind = u32_at(t, off + 4);
        if kind == 0 || kind == 2 {
            if off + 12 > t.len() {
                None
            } else {
                let (r, g, b, a) = (t[off + 8], t[off + 9], t[off + 10], t[off + 11]);
                let paint = if kind == 0 {
                    PaintModel::Solid { r, g, b, a }
                } else {
                    PaintModel::StrokeSolid { r, g, b, a }
                };
                Some((EntryModel { index, paint }, off + 12))
            }
        } else if kind == 1 {
            if off + 28 > t.len() {
                None
            } else {
                let n = u32_at(t, off + 24) as int;
                if off + 28 + 8 * n > t.len() {
                    None
                } else {
                    let paint = PaintModel::Linear {
                        x1: u32_at(t, off + 8),
                        y1: u32_at(t, off + 12),
                        x2: u32_at(t, off + 16),
                        y2: u32_at(t, off + 20),
                        stops: stops_at(t, off + 28, n as nat),
                    };
                    Some((EntryModel { index, paint }, off + 28 + 8 * n))
                }
            }
        } else {
            None
        }
    }
}

/// `n` consecutive entries from offset `off` on.
pub open spec fn spec_entries(t: Seq<u8>, off: int, n: nat) -> Option<Seq<EntryModel>>
    decreases n,
{
    if n == 0 {
        Some(seq![])
    } else {
        match spec_entry(t, off) {
            None => None,
            Some((e, next)) => match spec_entries(t, next, (n - 1) as nat) {
                None => None,
                Some(rest) => Some(seq![e] + rest),
            },
        }
    }
}

/// The paint table at offset `off`: a count, then that many entries.
pub open spec fn spec_table_at(t: Seq<u8>, off: int) -> Option<Seq<EntryModel>> {
    if off + 4 > t.len() {
        None
    } else {
        spec_entries(t, off + 4, u32_at(t, off) as nat)
    }
}

/// The paint table found by walking the EMF+ records from offset `p`: the
/// first record of the private paint type gives it; a record whose size is
/// below its 12-byte header, a paint record whose data runs past the end, or
/// running out of records (a record reaching past the end leaves no room for
/// another) gives `None`.
pub open spec fn spec_walk(d: Seq<u8>, p: int) -> Option<Seq<EntryModel>>
    decreases d.len() - p,
{
    if p < 0 || p + 12 > d.len() {
        None
    } else {
        let rtype = u16_at(d, p);
        let size = u32_at(d, p + 4) as int;
        let data_size = u32_at(d, p + 8) as int;
        if size < 12 {
            None
        } else if rtype == EMFPLUS_OMNI_PAINT {
            if p + 12 + data_size > d.len() {
                None
            } else {
                spec_table_at(d.subrange(p + 12, p + 12 + data_size), 0)
            }
        } else if p + size > d.len() {
            None
        } else {
            spec_walk(d, p + size)
        }
    }
}

/// The paint table an EMF+ comment payload carries, if any.
pub open spec fn spec_decode(d: Seq<u8>) -> Option<Seq<EntryModel>> {
    if d.len() < 4 || u32_at(d, 0) != EMR_COMMENT_EMFPLUS {
        None
    } else {
        spec_walk(d, 4)
    }
}

/// The model of an optional list of entries.
pub open spec fn opt_entries_view(r: Option<Vec<PlusEntry>>) -> Option<Seq<EntryModel>> {
    match r {
        Some(v) => Some(entries_view(v@)),
        None => None,
    }
}

/// Prepend `prefix` to a successful result.
pub open spec fn chain_entries(prefix: Seq<EntryModel>, r: Option<Seq<EntryModel>>) -> Option<
    Seq<EntryModel>,
> {
    match r {
        Some(rest) => Some(prefix + rest),
        None => None,
    }
}

/// Little-endian cursor over EMF+ data.
struct R<'a> {
    d: &'a [u8],
    p: usize,
}

impl<'a> R<'a> {
    #[verifier::type_invariant]
    spec fn inv(&self) -> bool {
        self.p <= self.d@.len()
    }

    spec fn data(&self) -> Seq<u8> {
        self.d@
    }

    spec fn pos(&self) -> int {
        self.p as int
    }

    fn new(d: &'a [u8]) -> (r: Self)
        ensures
            r.data() == d@,
            r.pos() == 0,
    {
        R { d, p: 0 }
    }

    fn u16(&mut self) -> (v: Option<u16>)
        ensures
            final(self).data() == old(self).data(),
            old(self).pos() + 2 <= old(self).data().len() ==> v == Some(
                u16_at(old(self).data(), old(self).pos()),
            ) && final(self).pos() == old(self).pos() + 2,
            old(self).pos() + 2 > old(self).data().len() ==> v is None && final(self).pos()
                == old(self).pos(),
            final(self).pos() <= final(self).data().len(),
    {
        proof {
            use_type_invariant(&*self);
        }
        if self.d.len() - self.p < 2 {
            return None;
        }
        let v = read_u16(self.d, self.p);
        self.p = self.p + 2;
        Some(v)
    }

    fn u32(&mut self) -> (v: Option<u32>)
        ensures
            final(self).data() == old(self).data(),
            old(self).pos() + 4 <= old(self).data().len() ==> v == Some(
                u32_at(old(self).data(), old(self).pos()),
            ) && final(self).pos() == old(self).pos() + 4,
            old(self).pos() + 4 > old(self).data().len() ==> v is None && final(self).pos()
                == old(self).pos(),
            final(self).pos() <= final(self).data().len(),
    {
        proof {
            use_type_invariant(&*self);
        }
        if self.d.len() - self.p < 4 {
            return None;
        }
        let v = read_u32(self.d, self.p);
        self.p = self.p + 4;
        Some(v)
    }

    /// A single-precision value, returned as its bit pattern.
    fn f32_bits(&mut self) -> (v: Option<u32>)
        ensures
            final(self).data() == old(self).data(),
            old(self).pos() + 4 <= old(self).data().len() ==> v == Some(
                u32_at(old(self).data(), old(self).pos()),
            ) && final(self).pos() == old(self).pos() + 4,
            old(self).pos() + 4 > old(self).data().len() ==> v is None && final(self).pos()
                == old(self).pos(),
            final(self).pos() <= final(self).data().len(),
    {
        self.u32()
    }

    /// The type, size and data size of the EMF+ record at the cursor (its
    /// flags are skipped).
    fn record_header(&mut self) -> (h: (u16, u32, u32))
        requires
            old(self).pos() + 12 <= old(self).data().len(),
        ensures
            final(self).data() == old(self).data(),
            final(self).pos() == old(self).pos() + 12,
            h == (
                u16_at(old(self).data(), old(self).pos()),
                u32_at(old(self).data(), old(self).pos() + 4),
                u32_at(old(self).data(), old(self).pos() + 8),
            ),
    {
        proof {
            use_type_invariant(&*self);
        }
        let _len = self.d.len();
        let rtype = read_u16(self.d, self.p);
        let size = read_u32(self.d, self.p + 4);
        let data_size = read_u32(self.d, self.p + 8);
        self.p = self.p + 12;
        (rtype, size, data_size)
    }

    fn bytes(&mut self, n: usize) -> (v: Option<&'a [u8]>)
        ensures
            final(self).data() == old(self).data(),
            old(self).pos() + n <= old(self).data().len() ==> (v matches Some(s) && s@
                == old(self).data().subrange(old(self).pos(), old(self).pos() + n)
                && final(self).pos() == old(self).pos() + n),
            old(self).pos() + n > old(self).data().len() ==> v is None && final(self).pos()
                == old(self).pos(),
            final(self).pos() <= final(self).data().len(),
    {
        proof {
            use_type_invariant(&*self);
        }
        if self.d.len() - self.p < n {
            return None;
        }
        let s = vstd::slice::slice_subrange(self.d, self.p, self.p + n);
        self.p = self.p + n;
        Some(s)
    }
}

/// Read `n` gradient stops.
fn decode_stops(t: &mut R, n: u32) -> (r: Option<Vec<PlusStop>>)
    ensures
        final(t).data() == old(t).data(),
        final(t).pos() <= final(t).data().len(),
        old(t).pos() + 8 * n <= old(t).data().len() ==> (r matches Some(v) && v@ == stops_at(
            old(t).data(),
            old(t).pos(),
            n as nat,
        ) && final(t).pos() == old(t).pos() + 8 * n),
        old(t).pos() + 8 * n > old(t).data().len() ==> r is None,
{
    let ghost d = t.data();
    let ghost start = t.pos();
    proof {
        use_type_invariant(&*t);
    }
    let mut stops: Vec<PlusStop> = Vec::new();
    let mut i: u32 = 0;
    while i < n
        invariant
            t.data() == d,
            d == old(t).data(),
            start == old(t).pos(),
            i <= n,
            t.pos() == start + 8 * i,
            t.pos() <= d.len(),
            stops@ == stops_at(d, start, i as nat),
        decreases n - i,
    {
        let offset = t.f32_bits()?;
        let c = t.bytes(4)?;
        stops.push(PlusStop { offset, r: c[0], g: c[1], b: c[2], a: c[3] });
        i = i + 1;
        assert(stops@ =~= stops_at(d, start, i as nat));
    }
    Some(stops)
}

/// Read one paint-table entry.
fn decode_entry(t: &mut R) -> (r: Option<PlusEntry>)
    ensures
        final(t).data() == old(t).data(),
        final(t).pos() <= final(t).data().len(),
        match spec_entry(old(t).data(), old(t).pos()) {
            Some((e, next)) => (r matches Some(x) && x@ == e && final(t).pos() == next),
            None => r is None,
        },
{
    let ghost d = t.data();
    let ghost off = t.pos();
    let index = t.u32()?;
    let kind = t.u32()?;
    if kind == 0 || kind == 2 {
        let c = t.bytes(4)?;
        let paint = if kind == 0 {
            PlusPaint::Solid { r: c[0], g: c[1], b: c[2], a: c[3] }
        } else {
            PlusPaint::StrokeSolid { r: c[0], g: c[1], b: c[2], a: c[3] }
        };
        Some(PlusEntry { index, paint })
    } else if kind == 1 {
        let x1 = t.f32_bits()?;
        let y1 = t.f32_bits()?;
        let x2 = t.f32_bits()?;
        let y2 = t.f32_bits()?;
        let n = t.u32()?;
        let stops = decode_stops(t, n)?;
        Some(PlusEntry { index, paint: PlusPaint::Linear { x1, y1, x2, y2, stops } })
    } else {
        None
    }
}

/// Read the paint table at the cursor: a count, then that many entries.
fn decode_table(t: &mut R) -> (r: Option<Vec<PlusEntry>>)
    ensures
        opt_entries_view(r) == spec_table_at(old(t).data(), old(t).pos()),
{
    let ghost d = t.data();
    let count = t.u32()?;
    let mut out: Vec<PlusEntry> = Vec::new();
    proof {
        match spec_entries(d, t.pos(), count as nat) {
            Some(v) => {
                assert(entries_view(out@) + v =~= v);
            },
            None => {},
        }
    }
    let mut i: u32 = 0;
    while i < count
        invariant
            t.data() == d,
            d == old(t).data(),
            i <= count,
            spec_table_at(d, old(t).pos()) == chain_entries(
                entries_view(out@),
                spec_entries(d, t.pos(), (count - i) as nat),
            ),
        decreases count - i,
    {
        let ghost before = out@;
        let ghost pos = t.pos();
        let e = decode_entry(t)?;
        out.push(e);
        proof {
            let rest = spec_entries(d, t.pos(), (count - i - 1) as nat);
            assert(entries_view(out@) =~= entries_view(before) + seq![e@]);
            match rest {
                Some(v) => {
                    assert(entries_view(before) + (seq![e@] + v) =~= entries_view(out@) + v);
                },
                None => {},
            }
        }
        i = i + 1;
    }
    assert(entries_view(out@) + Seq::<EntryModel>::empty() =~= entries_view(out@));
    Some(out)
}

/// Decode a paint table from an EMF+ comment payload, if it contains one.
pub fn decode(comment_data: &[u8]) -> (r: Option<Vec<PlusEntry>>)
    ensures
        opt_entries_view(r) == spec_decode(comment_data@),
{
    let ghost d = comment_data@;
    let len = comment_data.len();
    let mut r = R::new(comment_data);
    if r.u32()? != EMR_COMMENT_EMFPLUS {
        return None;
    }
    // Walk EMF+ records looking for the private paint table.
    while len - r.p >= 12
        invariant
            r.data() == d,
            comment_data@ == d,
            len == d.len(),
            r.pos() <= d.len(),
            spec_decode(d) == spec_walk(d, r.pos()),
        decreases len - r.p,
    {
        let ghost p = r.pos();
        let (rtype, size, data_size) = r.record_header();
        let size = size as usize;
        let data_size = data_size as usize;
        if size < 12 {
            return None;
        }
        let body_start = r.p;
        if rtype == EMFPLUS_OMNI_PAINT {
            if data_size > len - body_start {
                return None;
            }
            let sub = vstd::slice::slice_subrange(comment_data, body_start, body_start + data_size);
            let mut t = R::new(sub);
            assert(spec_walk(d, p) == spec_table_at(sub@, 0));
            return decode_table(&mut t);
        }
        // Advance to the next record (size includes the 12-byte header).
        if size - 12 > len - body_start {
            return None;
        }
        r.p = body_start + (size - 12);
        assert(spec_walk(d, p) == spec_walk(d, r.pos()));
    }
    None
}

// ---------------------------------------------------------------------------
// Decoding what was encoded
// ---------------------------------------------------------------------------

proof fn lemma_u32_read(pre: Seq<u8>, v: u32, post: Seq<u8>)
    ensures
        u32_at(pre + u32_le(v) + post, pre.len() as int) == v,
{
    lemma_read_u32(pre, v, post);
}

proof fn lemma_stops_read(pre: Seq<u8>, st: Seq<PlusStop>, post: Seq<u8>)
    ensures
        stops_at(pre + stops_le(st) + post, pre.len() as int, st.len()) == st,
        stops_le(st).len() == 8 * st.len(),
    decreases st.len(),
{
    let s = pre + stops_le(st) + post;
    if st.len() == 0 {
        assert(stops_at(s, pre.len() as int, 0) =~= st);
    } else {
        let init = st.drop_last();
        let last = st.last();
        let tail = u32_le(last.offset) + seq![last.r, last.g, last.b, last.a];
        lemma_stops_read(pre, init, tail + post);
        assert(s =~= pre + stops_le(init) + (tail + post));
        let q = pre + stops_le(init);
        lemma_u32_read(q, last.offset, seq![last.r, last.g, last.b, last.a] + post);
        assert(s =~= q + u32_le(last.offset) + (seq![last.r, last.g, last.b, last.a] + post));
        let i = pre.len() as int;
        let n = st.len();
        assert forall|k: int| 0 <= k < n implies #[trigger] stops_at(s, i, n)[k] == st[k] by {
            if k < n - 1 {
                assert(stops_at(s, i, (n - 1) as nat)[k] == init[k]);
            }
        }
        assert(stops_at(s, i, n) =~= st);
    }
}

proof fn lemma_entry_read_rgba(pre: Seq<u8>, index: u32, kind: u32, c: Seq<u8>, post: Seq<u8>)
    requires
        c.len() == 4,
    ensures
        ({
            let t = pre + (u32_le(index) + (u32_le(kind) + c)) + post;
            let off = pre.len() as int;
            &&& t.len() >= off + 12
            &&& u32_at(t, off) == index
            &&& u32_at(t, off + 4) == kind
            &&& t[off + 8] == c[0] && t[off + 9] == c[1] && t[off + 10] == c[2] && t[off + 11] == c[3]
        }),
{
    let t = pre + (u32_le(index) + (u32_le(kind) + c)) + post;
    assert(t =~= pre + u32_le(index) + (u32_le(kind) + c + post));
    lemma_u32_read(pre, index, u32_le(kind) + c + post);
    assert(t =~= (pre + u32_le(index)) + u32_le(kind) + (c + post));
    lemma_u32_read(pre + u32_le(index), kind, c + post);
}

/// The 28-byte head of a linear-gradient entry.
spec fn linear_head(index: u32, x1: u32, y1: u32, x2: u32, y2: u32, cnt: u32) -> Seq<u8> {
    u32_le(index) + u32_le(1) + u32_le(x1) + u32_le(y1) + u32_le(x2) + u32_le(y2) + u32_le(cnt)
}

proof fn lemma_linear_head_words(index: u32, x1: u32, y1: u32, x2: u32, y2: u32, cnt: u32)
    ensures
        linear_head(index, x1, y1, x2, y2, cnt) == u32s_le(seq![index, 1u32, x1, y1, x2, y2, cnt]),
{
    let vs = seq![index, 1u32, x1, y1, x2, y2, cnt];
    reveal_with_fuel(u32s_le, 8);
    assert(vs.drop_last() =~= seq![index, 1u32, x1, y1, x2, y2]);
    assert(vs.drop_last().drop_last() =~= seq![index, 1u32, x1, y1, x2]);
    assert(vs.drop_last().drop_last().drop_last() =~= seq![index, 1u32, x1, y1]);
    assert(vs.drop_last().drop_last().drop_last().drop_last() =~= seq![index, 1u32, x1]);
    assert(vs.drop_last().drop_last().drop_last().drop_last().drop_last() =~= seq![index, 1u32]);
    assert(vs.drop_last().drop_last().drop_last().drop_last().drop_last().drop_last() =~= seq![
        index,
    ]);
    assert(seq![index].drop_last() =~= Seq::<u32>::empty());
    assert(linear_head(index, x1, y1, x2, y2, cnt) =~= u32s_le(vs));
}

proof fn lemma_linear_head_read(
    pre: Seq<u8>,
    index: u32,
    x1: u32,
    y1: u32,
    x2: u32,
    y2: u32,
    cnt: u32,
    rest: Seq<u8>,
)
    ensures
        ({
            let t = pre + linear_head(index, x1, y1, x2, y2, cnt) + rest;
            let off = pre.len() as int;
            &&& linear_head(index, x1, y1, x2, y2, cnt).len() == 28
            &&& u32_at(t, off) == index
            &&& u32_at(t, off + 4) == 1
            &&& u32_at(t, off + 8) == x1
            &&& u32_at(t, off + 12) == y1
            &&& u32_at(t, off + 16) == x2
            &&& u32_at(t, off + 20) == y2
            &&& u32_at(t, off + 24) == cnt
        }),
{
    let vs = seq![index, 1u32, x1, y1, x2, y2, cnt];
    lemma_linear_head_words(index, x1, y1, x2, y2, cnt);
    lemma_read_u32s(pre, vs, rest);
    let t = pre + linear_head(index, x1, y1, x2, y2, cnt) + rest;
    let w = u32s_at(t, pre.len() as int, 7);
    assert(w[0] == index);
    assert(w[1] == 1);
    assert(w[2] == x1);
    assert(w[3] == y1);
    assert(w[4] == x2);
    assert(w[5] == y2);
    assert(w[6] == cnt);
}

proof fn lemma_linear_entry_split(index: u32, x1: u32, y1: u32, x2: u32, y2: u32, stops: Seq<PlusStop>)
    ensures
        entry_le(EntryModel { index, paint: PaintModel::Linear { x1, y1, x2, y2, stops } })
            == linear_head(index, x1, y1, x2, y2, trunc32(stops.len() as int)) + stops_le(stops),
{
    let h = linear_head(index, x1, y1, x2, y2, trunc32(stops.len() as int));
    let e = EntryModel { index, paint: PaintModel::Linear { x1, y1, x2, y2, stops } };
    assert(entry_le(e) =~= h + stops_le(stops));
}

proof fn lemma_entry_read_linear(
    pre: Seq<u8>,
    index: u32,
    x1: u32,
    y1: u32,
    x2: u32,
    y2: u32,
    stops: Seq<PlusStop>,
    post: Seq<u8>,
)
    requires
        stops.len() < 0x1_0000_0000,
    ensures
        ({
            let e = EntryModel { index, paint: PaintModel::Linear { x1, y1, x2, y2, stops } };
            spec_entry(pre + entry_le(e) + post, pre.len() as int) == Some(
                (e, pre.len() + entry_le(e).len() as int),
            )
        }),
{
    let e = EntryModel { index, paint: PaintModel::Linear { x1, y1, x2, y2, stops } };
    let n = stops.len();
    lemma_trunc32_id(n as int);
    let h = linear_head(index, x1, y1, x2, y2, n as u32);
    let body = stops_le(stops);
    let t = pre + entry_le(e) + post;
    let off = pre.len() as int;
    lemma_linear_entry_split(index, x1, y1, x2, y2, stops);
    lemma_assoc4(pre, h, body, post);
    lemma_linear_head_read(pre, index, x1, y1, x2, y2, n as u32, body + post);
    lemma_stops_read(pre + h, stops, post);
    assert(stops_at(t, off + 28, n) == stops);
    assert(entry_le(e).len() == 28 + 8 * n);
}

proof fn lemma_assoc4(a: Seq<u8>, b: Seq<u8>, c: Seq<u8>, d: Seq<u8>)
    ensures
        a + (b + c) + d == a + b + (c + d),
        a + (b + c) + d == a + b + c + d,
{
    assert(a + (b + c) + d =~= a + b + (c + d));
    assert(a + (b + c) + d =~= a + b + c + d);
}

proof fn lemma_entry_read(pre: Seq<u8>, e: EntryModel, post: Seq<u8>)
    requires
        entry_le(e).len() < 0x1_0000_0000,
    ensures
        spec_entry(pre + entry_le(e) + post, pre.len() as int) == Some(
            (e, pre.len() + entry_le(e).len() as int),
        ),
{
    match e.paint {
        PaintModel::Solid { r, g, b, a } => {
            lemma_entry_read_rgba(pre, e.index, 0, seq![r, g, b, a], post);
        },
        PaintModel::StrokeSolid { r, g, b, a } => {
            lemma_entry_read_rgba(pre, e.index, 2, seq![r, g, b, a], post);
        },
        PaintModel::Linear { x1, y1, x2, y2, stops } => {
            assert(stops_le(stops).len() == 8 * stops.len()) by {
                lemma_stops_read(seq![], stops, seq![]);
            }
            lemma_entry_read_linear(pre, e.index, x1, y1, x2, y2, stops, post);
        },
    }
}

proof fn lemma_entries_read(pre: Seq<u8>, es: Seq<EntryModel>, post: Seq<u8>)
    requires
        entries_le(es).len() < 0x1_0000_0000,
    ensures
        spec_entries(pre + entries_le(es) + post, pre.len() as int, es.len()) == Some(es),
        entries_le(es).len() >= 12 * es.len(),
    decreases es.len(),
{
    if es.len() == 0 {
        assert(es =~= Seq::<EntryModel>::empty());
    } else {
        let e = es[0];
        let tail = es.subrange(1, es.len() as int);
        let x = entry_le(e);
        let r = entries_le(tail);
        assert(entries_le(es) == x + r);
        lemma_assoc4(pre, x, r, post);
        lemma_entry_read(pre, e, r + post);
        lemma_entries_read(pre + x, tail, post);
        assert(x.len() >= 12) by {
            match e.paint {
                PaintModel::Linear { x1, y1, x2, y2, stops } => {
                    lemma_linear_entry_split(e.index, x1, y1, x2, y2, stops);
                    lemma_linear_head_read(seq![], e.index, x1, y1, x2, y2, trunc32(stops.len() as int), seq![]);
                },
                _ => {},
            }
        }
        assert(seq![e] + tail =~= es);
    }
}

proof fn lemma_plus_record_read(pre: Seq<u8>, rtype: u16, flags: u16, data: Seq<u8>, post: Seq<u8>)
    ensures
        ({
            let t = pre + plus_record_le(rtype, flags, data) + post;
            let off = pre.len() as int;
            &&& plus_record_le(rtype, flags, data).len() == 12 + pad4(data).len()
            &&& pad4(data).len() >= data.len()
            &&& u16_at(t, off) == rtype
            &&& u32_at(t, off + 4) == trunc32(12 + pad4(data).len() as int)
            &&& u32_at(t, off + 8) == trunc32(data.len() as int)
            &&& t.subrange(off + 12, off + 12 + data.len()) == data
        }),
{
    let a = u16_le(rtype);
    let b = u16_le(flags);
    let c = u32_le(trunc32(12 + pad4(data).len() as int));
    let d = u32_le(trunc32(data.len() as int));
    let p = pad4(data);
    let t = pre + plus_record_le(rtype, flags, data) + post;
    assert(t =~= pre + a + (b + c + d + p + post));
    lemma_read_u16(pre, rtype, b + c + d + p + post);
    assert(t =~= (pre + a + b) + c + (d + p + post));
    lemma_read_u32(pre + a + b, trunc32(12 + pad4(data).len() as int), d + p + post);
    assert(t =~= (pre + a + b + c) + d + (p + post));
    lemma_read_u32(pre + a + b + c, trunc32(data.len() as int), p + post);
    assert(p.subrange(0, data.len() as int) =~= data);
    let off = pre.len() as int;
    assert(t.subrange(off + 12, off + 12 + data.len()) =~= data);
}

/// Decoding what `encode` produced gives back the entries, whenever the
/// encoded payload fits the 32-bit size fields.
#[verifier::spinoff_prover]
#[verifier::rlimit(40)]
pub proof fn lemma_decode_encode(es: Seq<EntryModel>)
    requires
        spec_encode(es).len() <= u32::MAX,
    ensures
        spec_decode(spec_encode(es)) == Some(es),
{
    let m = u32_le(EMR_COMMENT_EMFPLUS);
    let hd = plus_header_data();
    let h = plus_record_le(EMFPLUS_HEADER, 0, hd);
    let tb = table_le(es);
    let p = plus_record_le(EMFPLUS_OMNI_PAINT, 0, tb);
    let e = plus_record_le(EMFPLUS_EOF, 0, seq![]);
    let d = spec_encode(es);
    assert(d == m + h + p + e);
    assert(u32_at(d, 0) == EMR_COMMENT_EMFPLUS) by {
        lemma_read_u32(seq![], EMR_COMMENT_EMFPLUS, h + p + e);
        assert(d =~= seq![] + m + (h + p + e));
    }
    assert(h.len() == 28 && u16_at(d, 4) == EMFPLUS_HEADER && u32_at(d, 8) == 28) by {
        assert(hd.len() == 16);
        assert(pad4(hd) =~= hd);
        lemma_plus_record_read(m, EMFPLUS_HEADER, 0, hd, p + e);
        assert(d =~= m + h + (p + e));
        lemma_trunc32_id(28);
    }
    assert(u16_at(d, 32) == EMFPLUS_OMNI_PAINT && u32_at(d, 36) >= 12 && u32_at(d, 40) == tb.len()
        && d.len() >= 44 + tb.len() && d.subrange(44, 44 + tb.len() as int) == tb) by {
        lemma_plus_record_read(m + h, EMFPLUS_OMNI_PAINT, 0, tb, e);
        assert(d =~= (m + h) + p + e);
        lemma_trunc32_id(12 + pad4(tb).len() as int);
        lemma_trunc32_id(tb.len() as int);
    }
    assert(spec_table_at(tb, 0) == Some(es)) by {
        let c = u32_le(trunc32(es.len() as int));
        lemma_entries_read(c, es, seq![]);
        lemma_trunc32_id(es.len() as int);
        assert(tb =~= c + entries_le(es) + seq![]);
        lemma_read_u32(seq![], trunc32(es.len() as int), entries_le(es));
        assert(tb =~= seq![] + c + entries_le(es));
    }
    lemma_walk_paint(d, 32, tb);
    lemma_walk_skip(d, 4, 28);
}

proof fn lemma_walk_paint(d: Seq<u8>, p: int, tb: Seq<u8>)
    requires
        p >= 0,
        p + 12 + tb.len() <= d.len(),
        u16_at(d, p) == EMFPLUS_OMNI_PAINT,
        u32_at(d, p + 4) >= 12,
        u32_at(d, p + 8) == tb.len(),
        d.subrange(p + 12, p + 12 + tb.len()) == tb,
    ensures
        spec_walk(d, p) == spec_table_at(tb, 0),
{
}

proof fn lemma_walk_skip(d: Seq<u8>, p: int, size: int)
    requires
        p >= 0,
        size >= 12,
        p + size <= d.len(),
        u16_at(d, p) != EMFPLUS_OMNI_PAINT,
        u32_at(d, p + 4) == size,
    ensures
        spec_walk(d, p) == spec_walk(d, p + size),
{
}

// ---------------------------------------------------------------------------
// The entries of one element
// ---------------------------------------------------------------------------

/// A gradient fill as recorded: its device-space endpoints and its stops
/// (offsets as single-precision bit patterns), the stop alphas not yet
/// combined with the fill's.
pub struct GradientFill {
    pub x1: u32,
    pub y1: u32,
    pub x2: u32,
    pub y2: u32,
    pub stops: Vec<PlusStop>,
}

/// The model of an optional gradient fill.
pub open spec fn gradient_model(g: Option<GradientFill>) -> Option<(u32, u32, u32, u32, Seq<PlusStop>)> {
    match g {
        Some(g) => Some((g.x1, g.y1, g.x2, g.y2, g.stops@)),
        None => None,
    }
}

/// A stop alpha combined with the fill's alpha: their product over 255,
/// rounded down.
pub open spec fn combined_alpha(a: u8, fill_alpha: u8) -> u8 {
    ((a as int * fill_alpha as int) / 255) as u8
}

/// Stops with their alphas combined with the fill's alpha.
pub open spec fn faded_stops(stops: Seq<PlusStop>, fill_alpha: u8) -> Seq<PlusStop> {
    stops.map_values(|s: PlusStop| PlusStop { a: combined_alpha(s.a, fill_alpha), ..s })
}

/// The paint-table entries of element `index`: for a fill (color, alpha), a
/// linear entry for its gradient, the stop alphas combined with the fill's,
/// or else a solid entry when the fill is not opaque; then, for a stroke
/// that is not opaque, a stroke entry.
pub open spec fn spec_element_entries(
    index: u32,
    fill: Option<(Rgb, u8)>,
    gradient: Option<(u32, u32, u32, u32, Seq<PlusStop>)>,
    stroke: Option<(Rgb, u8)>,
) -> Seq<EntryModel> {
    let f = match fill {
        Some((c, fa)) => match gradient {
            Some((x1, y1, x2, y2, st)) => seq![
                EntryModel {
                    index,
                    paint: PaintModel::Linear { x1, y1, x2, y2, stops: faded_stops(st, fa) },
                },
            ],
            None => if fa != 255 {
                seq![EntryModel { index, paint: PaintModel::Solid { r: c.r, g: c.g, b: c.b, a: fa } }]
            } else {
                seq![]
            },
        },
        None => seq![],
    };
    let s = match stroke {
        Some((c, sa)) => if sa != 255 {
            seq![EntryModel { index, paint: PaintModel::StrokeSolid { r: c.r, g: c.g, b: c.b, a: sa } }]
        } else {
            seq![]
        },
        None => seq![],
    };
    f + s
}

fn fade_stops(stops: &[PlusStop], fill_alpha: u8) -> (out: Vec<PlusStop>)
    ensures
        out@ == faded_stops(stops@, fill_alpha),
{
    let mut out: Vec<PlusStop> = Vec::new();
    let mut i: usize = 0;
    while i < stops.len()
        invariant
            i <= stops@.len(),
            out@ == faded_stops(stops@.subrange(0, i as int), fill_alpha),
        decreases stops@.len() - i,
    {
        let s = stops[i];
        let (x, y) = (s.a as u32, fill_alpha as u32);
        assert(x * y <= 255 * 255) by (nonlinear_arith)
            requires
                x <= 255,
                y <= 255,
        ;
        let a = (x * y / 255) as u8;
        out.push(PlusStop { a, ..s });
        i = i + 1;
        assert(out@ =~= faded_stops(stops@.subrange(0, i as int), fill_alpha));
    }
    assert(stops@.subrange(0, stops@.len() as int) =~= stops@);
    out
}

/// Append the paint-table entries of element `index` (see
/// `spec_element_entries`).
pub fn push_element_entries(
    table: &mut Vec<PlusEntry>,
    index: u32,
    fill: Option<(Rgb, u8)>,
    gradient: Option<GradientFill>,
    stroke: Option<(Rgb, u8)>,
)
    ensures
        entries_view(final(table)@) == entries_view(old(table)@) + spec_element_entries(
            index,
            fill,
            gradient_model(gradient),
            stroke,
        ),
{
    let ghost g = gradient_model(gradient);
    let ghost t0 = entries_view(table@);
    if let Some((c, fa)) = fill {
        match gradient {
            Some(gf) => {
                let stops = fade_stops(gf.stops.as_slice(), fa);
                table.push(
                    PlusEntry {
                        index,
                        paint: PlusPaint::Linear { x1: gf.x1, y1: gf.y1, x2: gf.x2, y2: gf.y2, stops },
                    },
                );
            },
            None => {
                if fa != 255 {
                    table.push(PlusEntry { index, paint: PlusPaint::Solid { r: c.r, g: c.g, b: c.b, a: fa } });
                }
            },
        }
    }
    let ghost t1 = entries_view(table@);
    assert(t1 =~= t0 + spec_element_entries(index, fill, g, None));
    if let Some((c, sa)) = stroke {
        if sa != 255 {
            table.push(PlusEntry { index, paint: PlusPaint::StrokeSolid { r: c.r, g: c.g, b: c.b, a: sa } });
        }
    }
    assert(entries_view(table@) =~= t0 + spec_element_entries(index, fill, g, stroke));
}

// ---------------------------------------------------------------------------
// Reading the entries back
// ---------------------------------------------------------------------------

/// The solid paint of one element as playback keeps it: the fill and the
/// stroke, each a color with its alpha (`None`: not painted).
#[derive(Debug, Clone, Copy, PartialEq, Eq)]
pub struct SolidPaint {
    pub fill: Option<(Rgb, u8)>,
    pub stroke: Option<(Rgb, u8)>,
}

/// An entry applied to an element's solid paint: a solid entry gives a fill
/// its color and alpha, a stroke entry a stroke; an element without that
/// paint, and a gradient entry, leave it as it is.
pub open spec fn spec_apply_entry(p: SolidPaint, e: PaintModel) -> SolidPaint {
    match e {
        PaintModel::Solid { r, g, b, a } => if p.fill is Some {
            SolidPaint { fill: Some((Rgb { r, g, b }, a)), ..p }
        } else {
            p
        },
        PaintModel::StrokeSolid { r, g, b, a } => if p.stroke is Some {
            SolidPaint { stroke: Some((Rgb { r, g, b }, a)), ..p }
        } else {
            p
        },
        PaintModel::Linear { .. } => p,
    }
}

/// Apply one paint entry to an element's solid paint.
pub fn apply_entry(p: &mut SolidPaint, e: &PlusPaint)
    ensures
        *final(p) == spec_apply_entry(*old(p), e@),
{
    match e {
        PlusPaint::Solid { r, g, b, a } => {
            if p.fill.is_some() {
                p.fill = Some((Rgb::new(*r, *g, *b), *a));
            }
        },
        PlusPaint::StrokeSolid { r, g, b, a } => {
            if p.stroke.is_some() {
                p.stroke = Some((Rgb::new(*r, *g, *b), *a));
            }
        },
        PlusPaint::Linear { .. } => {},
    }
}

/// Entries applied in order.
pub open spec fn apply_entries(p: SolidPaint, es: Seq<EntryModel>) -> SolidPaint
    decreases es.len(),
{
    if es.len() == 0 {
        p
    } else {
        apply_entries(spec_apply_entry(p, es[0].paint), es.drop_first())
    }
}

/// A paint as classic EMF carries it: the same colors, opaque.
pub open spec fn opaque(x: Option<(Rgb, u8)>) -> Option<(Rgb, u8)> {
    match x {
        Some((c, _)) => Some((c, 255u8)),
        None => None,
    }
}

/// The alphas an emitter records for an element are read back: applying the
/// element's entries to its opaque classic paint gives back its stroke and,
/// unless the fill is a gradient (which carries its alpha in its stops), its
/// fill.
pub proof fn lemma_solid_paint_reads_back(
    index: u32,
    fill: Option<(Rgb, u8)>,
    gradient: Option<(u32, u32, u32, u32, Seq<PlusStop>)>,
    stroke: Option<(Rgb, u8)>,
)
    ensures
        ({
            let back = apply_entries(
                SolidPaint { fill: opaque(fill), stroke: opaque(stroke) },
                spec_element_entries(index, fill, gradient, stroke),
            );
            &&& back.stroke == stroke
            &&& back.fill == if gradient is None {
                fill
            } else {
                opaque(fill)
            }
        }),
{
    let es = spec_element_entries(index, fill, gradient, stroke);
    let p0 = SolidPaint { fill: opaque(fill), stroke: opaque(stroke) };
    reveal_with_fuel(apply_entries, 3);
    if es.len() > 0 {
        assert(es.drop_first().len() < 2);
        if es.len() == 2 {
            assert(es.drop_first() =~= seq![es[1]]);
            assert(es.drop_first().drop_first() =~= Seq::<EntryModel>::empty());
        } else {
            assert(es.drop_first() =~= Seq::<EntryModel>::empty());
        }
    }
}

} // verus!
