use vecmeta::error::EmfError;
use vecmeta::reader::{Cur, EmfFile};
use vecmeta::records::{EmfHeader, EmfRecord};
use vecmeta::types::{
    ColorRef, PointL, RectL, SizeL, Xform, BS_SOLID, MM_ANISOTROPIC, MWT_LEFTMULTIPLY,
    NULL_PEN, OMNI_KIND_SVG, PS_ENDCAP_FLAT, PS_GEOMETRIC, PS_JOIN_BEVEL, PS_SOLID,
    PS_USERSTYLE, PT_CLOSEFIGURE, PT_LINETO, PT_MOVETO, STOCK_OBJECT_FLAG,
};
use vecmeta::writer::write_emf;

fn roundtrip(rec: EmfRecord) {
    let header = EmfHeader {
        bounds: RectL::new(0, 0, 100, 100),
        frame: RectL::new(0, 0, 2646, 2646),
        ..Default::default()
    };
    let bytes = write_emf(&header, &[rec.clone(), EmfRecord::Eof]);
    let parsed = EmfFile::parse(&bytes).expect("parse back");
    assert_eq!(parsed.records.len(), 2);
    assert_eq!(parsed.records[0], rec);
    assert_eq!(parsed.records[1], EmfRecord::Eof);
    assert_eq!(parsed.header.bounds, header.bounds);
}

#[test]
fn write_read_symmetry() {
    roundtrip(EmfRecord::SetMapMode(MM_ANISOTROPIC));
    roundtrip(EmfRecord::SetWindowExtEx(SizeL::new(1000, 2000)));
    roundtrip(EmfRecord::SetViewportOrgEx(PointL::new(-3, 7)));
    roundtrip(EmfRecord::MoveToEx(PointL::new(10, -20)));
    roundtrip(EmfRecord::SetWorldTransform(Xform {
        m11: 1.5f32.to_bits(),
        m12: 0.25f32.to_bits(),
        m21: (-0.5f32).to_bits(),
        m22: 2.0f32.to_bits(),
        dx: 10.0f32.to_bits(),
        dy: (-4.0f32).to_bits(),
    }));
    roundtrip(EmfRecord::ModifyWorldTransform {
        xform: Xform::identity_xform(),
        mode: MWT_LEFTMULTIPLY,
    });
    roundtrip(EmfRecord::CreatePen {
        ih: 1,
        style: PS_SOLID,
        width: 3,
        color: ColorRef::new(255, 0, 127),
    });
    roundtrip(EmfRecord::ExtCreatePen {
        ih: 2,
        style: PS_GEOMETRIC | PS_USERSTYLE | PS_ENDCAP_FLAT | PS_JOIN_BEVEL,
        width: 12,
        brush_style: BS_SOLID,
        color: ColorRef::new(1, 2, 3),
        hatch: 0,
        style_entries: vec![36, 12],
    });
    roundtrip(EmfRecord::CreateBrushIndirect {
        ih: 3,
        style: BS_SOLID,
        color: ColorRef::new(9, 8, 7),
        hatch: 0,
    });
    roundtrip(EmfRecord::SelectObject(STOCK_OBJECT_FLAG | NULL_PEN));
    roundtrip(EmfRecord::Polyline(vec![
        PointL::new(0, 0),
        PointL::new(50, 60),
        PointL::new(-10, 30),
    ]));
    roundtrip(EmfRecord::Polypolygon {
        counts: vec![3, 4],
        pts: vec![
            PointL::new(0, 0),
            PointL::new(10, 0),
            PointL::new(10, 10),
            PointL::new(20, 20),
            PointL::new(30, 20),
            PointL::new(30, 30),
            PointL::new(20, 30),
        ],
    });
    roundtrip(EmfRecord::PolyDraw {
        pts: vec![PointL::new(0, 0), PointL::new(5, 5), PointL::new(9, 1)],
        types: vec![PT_MOVETO, PT_LINETO, PT_LINETO | PT_CLOSEFIGURE],
    });
    roundtrip(EmfRecord::AngleArc {
        center: PointL::new(50, 50),
        radius: 25,
        start_angle: 0.0f32.to_bits(),
        sweep_angle: 270.0f32.to_bits(),
    });
    roundtrip(EmfRecord::RoundRect {
        rect: RectL::new(0, 0, 40, 20),
        corner: SizeL::new(8, 8),
    });
    roundtrip(EmfRecord::Pie {
        rect: RectL::new(0, 0, 100, 50),
        start: PointL::new(100, 25),
        end: PointL::new(0, 25),
    });
    roundtrip(EmfRecord::BeginPath);
    roundtrip(EmfRecord::FillPath(RectL::new(0, 0, 10, 10)));
    roundtrip(EmfRecord::omni_comment(OMNI_KIND_SVG, b"<svg>lossless</svg>"));
    roundtrip(EmfRecord::Comment(vec![1, 2, 3])); // non-multiple-of-4 padded
    roundtrip(EmfRecord::Unknown {
        itype: 76, // EMR_BITBLT
        data: vec![0u8; 92],
    });
}

#[test]
fn rejects_garbage() {
    assert!(EmfFile::parse(&[]).is_err());
    assert!(EmfFile::parse(&[0u8; 200]).is_err());
    let header = EmfHeader::default();
    let mut ok = write_emf(&header, &[EmfRecord::Eof]);
    // Corrupt the signature.
    ok[40] = 0;
    assert!(EmfFile::parse(&ok).is_err());
}

#[test]
fn truncated_record_is_error() {
    let header = EmfHeader::default();
    let bytes = write_emf(
        &header,
        &[
            EmfRecord::Polyline(vec![PointL::new(0, 0), PointL::new(1, 1)]),
            EmfRecord::Eof,
        ],
    );
    // Cut the file in the middle of the polyline record.
    assert!(EmfFile::parse(&bytes[..100]).is_err());
}

#[test]
fn header_counts_match_the_file() {
    let header = EmfHeader::default();
    let bytes = write_emf(&header, &[EmfRecord::SaveDc, EmfRecord::Eof]);
    // Header (88) + SaveDc frame (8) + Eof frame (8 + 12).
    assert_eq!(bytes.len(), 88 + 8 + 20);
    let parsed = EmfFile::parse(&bytes).unwrap();
    assert_eq!(parsed.header.n_bytes, bytes.len() as u32);
    assert_eq!(parsed.header.n_records, 3);
    assert_eq!(parsed.header.device, SizeL::new(1920, 1080));
    assert_eq!(parsed.header.millimeters, SizeL::new(508, 286));
}

#[test]
fn error_variants() {
    // Too short for a header.
    assert_eq!(
        EmfFile::parse(&[0u8; 10]).unwrap_err(),
        EmfError::Truncated("file smaller than EMF header")
    );
    // A first record that is not EMR_HEADER.
    let header = EmfHeader::default();
    let mut bytes = write_emf(&header, &[EmfRecord::Eof]);
    bytes[0] = 2;
    assert_eq!(EmfFile::parse(&bytes).unwrap_err(), EmfError::NotEmf);
    // A record size that is not a multiple of 4.
    let mut bytes = write_emf(&header, &[EmfRecord::SaveDc, EmfRecord::Eof]);
    bytes[92] = 9;
    assert_eq!(
        EmfFile::parse(&bytes).unwrap_err(),
        EmfError::BadRecordSize { itype: 33, nsize: 9 }
    );
    // Polygon counts that do not add up to the point count.
    let mut bytes = write_emf(
        &header,
        &[
            EmfRecord::Polypolygon {
                counts: vec![2, 1],
                pts: vec![PointL::new(0, 0), PointL::new(1, 1), PointL::new(2, 2)],
            },
            EmfRecord::Eof,
        ],
    );
    // First count, after frame (8) + bounds (16) + two counts (8).
    bytes[88 + 32] = 5;
    assert_eq!(
        EmfFile::parse(&bytes).unwrap_err(),
        EmfError::Malformed("poly counts do not sum to point count")
    );
    // Missing EMR_EOF.
    let bytes = write_emf(&header, &[EmfRecord::SaveDc]);
    assert_eq!(
        EmfFile::parse(&bytes).unwrap_err(),
        EmfError::Truncated("missing EMR_EOF")
    );
}

#[test]
fn sixteen_bit_points_are_widened() {
    let header = EmfHeader::default();
    let mut bytes = write_emf(&header, &[EmfRecord::Eof]);
    let eof = bytes.split_off(88);
    // EMR_POLYLINE16 with two points.
    let mut rec: Vec<u8> = Vec::new();
    rec.extend_from_slice(&87u32.to_le_bytes());
    rec.extend_from_slice(&36u32.to_le_bytes());
    rec.extend_from_slice(&[0u8; 16]);
    rec.extend_from_slice(&2u32.to_le_bytes());
    rec.extend_from_slice(&(-5i16).to_le_bytes());
    rec.extend_from_slice(&7i16.to_le_bytes());
    rec.extend_from_slice(&300i16.to_le_bytes());
    rec.extend_from_slice(&(-2i16).to_le_bytes());
    bytes.extend_from_slice(&rec);
    bytes.extend_from_slice(&eof);
    let parsed = EmfFile::parse(&bytes).unwrap();
    assert_eq!(
        parsed.records[0],
        EmfRecord::Polyline(vec![PointL::new(-5, 7), PointL::new(300, -2)])
    );
}

#[test]
fn polyline_bounds_are_written() {
    let header = EmfHeader::default();
    let bytes = write_emf(
        &header,
        &[
            EmfRecord::Polyline(vec![PointL::new(3, -4), PointL::new(-7, 9)]),
            EmfRecord::Eof,
        ],
    );
    let b = &bytes[96..112];
    let rd = |i: usize| i32::from_le_bytes([b[i], b[i + 1], b[i + 2], b[i + 3]]);
    assert_eq!((rd(0), rd(4), rd(8), rd(12)), (-7, -4, 3, 9));
}

#[test]
fn omni_payload_round_trips() {
    let rec = EmfRecord::omni_comment(OMNI_KIND_SVG, b"abc");
    let (kind, payload) = rec.as_omni_payload().unwrap();
    assert_eq!(kind, OMNI_KIND_SVG);
    assert_eq!(payload, b"abc");
    assert!(EmfRecord::Comment(vec![1, 2, 3]).as_omni_payload().is_none());
    assert!(EmfRecord::Eof.as_omni_payload().is_none());
}

#[test]
fn kind_names() {
    assert_eq!(EmfRecord::Eof.kind_name(), "EMR_EOF");
    assert_eq!(EmfRecord::Polyline(vec![]).kind_name(), "EMR_POLYLINE");
    assert_eq!(
        EmfRecord::Unknown { itype: 76, data: vec![] }.kind_name(),
        "EMR_UNKNOWN"
    );
}

#[test]
fn compact_point_forms_are_written_when_they_fit() {
    let header = EmfHeader::default();
    let small = vec![PointL::new(0, 0), PointL::new(1, 1)];
    let bytes = write_emf(&header, &[EmfRecord::Polyline(small.clone()), EmfRecord::Eof]);
    let rd = |i: usize| u32::from_le_bytes([bytes[i], bytes[i + 1], bytes[i + 2], bytes[i + 3]]);
    assert_eq!(rd(88), 87);
    assert_eq!(rd(92), 8 + 20 + 4 * 2);
    // The points as i16 pairs after the bounds and the count.
    assert_eq!(&bytes[96 + 20..96 + 28], &[0, 0, 0, 0, 1, 0, 1, 0]);
    let parsed = EmfFile::parse(&bytes).unwrap();
    assert_eq!(parsed.records[0], EmfRecord::Polyline(small));

    // A coordinate outside 16 bits keeps the 32-bit form.
    let wide = vec![PointL::new(0, 40000), PointL::new(-3, 2)];
    let bytes = write_emf(&header, &[EmfRecord::Polygon(wide.clone()), EmfRecord::Eof]);
    let rd = |i: usize| u32::from_le_bytes([bytes[i], bytes[i + 1], bytes[i + 2], bytes[i + 3]]);
    assert_eq!(rd(88), 3);
    assert_eq!(rd(92), 8 + 20 + 8 * 2);
    assert_eq!(EmfFile::parse(&bytes).unwrap().records[0], EmfRecord::Polygon(wide));

    // The boundaries of the 16-bit range still fit.
    let edge = vec![PointL::new(-32768, 32767)];
    let rec = EmfRecord::PolyDraw { pts: edge.clone(), types: vec![6] };
    let bytes = write_emf(&header, &[rec.clone(), EmfRecord::Eof]);
    let rd = |i: usize| u32::from_le_bytes([bytes[i], bytes[i + 1], bytes[i + 2], bytes[i + 3]]);
    assert_eq!(rd(88), 92);
    assert_eq!(EmfFile::parse(&bytes).unwrap().records[0], rec);
    let pp = EmfRecord::Polypolyline { counts: vec![1, 1], pts: vec![PointL::new(5, 6), PointL::new(7, 8)] };
    let bytes = write_emf(&header, &[pp.clone(), EmfRecord::Eof]);
    let rd = |i: usize| u32::from_le_bytes([bytes[i], bytes[i + 1], bytes[i + 2], bytes[i + 3]]);
    assert_eq!(rd(88), 90);
    assert_eq!(EmfFile::parse(&bytes).unwrap().records[0], pp);
}

#[test]
fn cursor_remaining_tracks_successful_reads() {
    let data = [1u8, 0, 0, 0, 5, 6, 7];
    let mut c = Cur::new(&data);
    assert_eq!(c.remaining(), 7);
    assert_eq!(c.u32(), Ok(1));
    assert_eq!(c.remaining(), 3);
    // A read that does not fit consumes nothing.
    assert!(c.u32().is_err());
    assert_eq!(c.remaining(), 3);
    assert_eq!(c.u16(), Ok(0x0605));
    assert_eq!(c.remaining(), 1);
    assert!(c.i16().is_err());
    assert_eq!(c.remaining(), 1);
    assert_eq!(c.u8(), Ok(7));
    assert_eq!(c.remaining(), 0);
    assert!(c.u8().is_err());
    assert_eq!(c.remaining(), 0);
}
