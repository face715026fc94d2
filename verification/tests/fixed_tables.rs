use font_inspect::avar;
use font_inspect::json::{parsed_field, Json};
use font_inspect::maxp;
use font_inspect::parser::parse_specific_table;
use font_inspect::reader::{read_u16_at, Reader, Scalar};
use font_inspect::vorg;

fn build_font(tables: &[(&[u8; 4], Vec<u8>)]) -> Vec<u8> {
    let mut sorted: Vec<(&[u8; 4], Vec<u8>)> = tables.iter().map(|(t, d)| (*t, d.clone())).collect();
    sorted.sort_by(|a, b| a.0.cmp(b.0));
    let n = sorted.len();
    let mut out = Vec::new();
    out.extend_from_slice(&0x0001_0000u32.to_be_bytes());
    out.extend_from_slice(&(n as u16).to_be_bytes());
    out.extend_from_slice(&[0, 16, 0, 0, 0, 0]);
    let mut offset = 12 + 16 * n;
    let mut data = Vec::new();
    for (tag, bytes) in &sorted {
        out.extend_from_slice(&tag[..]);
        out.extend_from_slice(&[0, 0, 0, 0]);
        out.extend_from_slice(&(offset as u32).to_be_bytes());
        out.extend_from_slice(&(bytes.len() as u32).to_be_bytes());
        let mut padded = bytes.clone();
        while padded.len() % 4 != 0 {
            padded.push(0);
        }
        offset += padded.len();
        data.extend_from_slice(&padded);
    }
    out.extend_from_slice(&data);
    out
}

fn field<'a>(j: &'a Json, key: &str) -> &'a Json {
    match j {
        Json::Obj(entries) => match entries.iter().find(|(k, _)| k == key) {
            Some((_, v)) => v,
            None => panic!("no key {}", key),
        },
        _ => panic!("not an object at {}", key),
    }
}

fn has(j: &Json, key: &str) -> bool {
    match j {
        Json::Obj(entries) => entries.iter().any(|(k, _)| k == key),
        _ => false,
    }
}

fn num(j: &Json) -> i128 {
    match j {
        Json::UInt(u) => *u as i128,
        Json::Int(i) => *i as i128,
        _ => panic!("not a number"),
    }
}

fn string(j: &Json) -> &str {
    match j {
        Json::Str(s) => s.as_str(),
        _ => panic!("not a string"),
    }
}

fn items(j: &Json) -> &Vec<Json> {
    match j {
        Json::Arr(v) => v,
        _ => panic!("not an array"),
    }
}

fn vol(j: &Json) -> (i128, i128, i128) {
    (num(field(j, "value")), num(field(j, "offset")), num(field(j, "length")))
}

fn head_table() -> Vec<u8> {
    let mut h = Vec::new();
    h.extend_from_slice(&[0, 1, 0, 0]);
    h.extend_from_slice(&[0, 1, 0x80, 0]);
    h.extend_from_slice(&[0, 0, 0, 7]);
    h.extend_from_slice(&[0x5F, 0x0F, 0x3C, 0xF5]);
    h.extend_from_slice(&[0, 3]);
    h.extend_from_slice(&[0x03, 0xE8]);
    h.extend_from_slice(&[0, 0, 0, 0, 0, 0, 0x0E, 0x10]);
    h.extend_from_slice(&[0xFF; 8]);
    h.extend_from_slice(&[0xFF, 0x9C, 0, 0, 0, 100, 0, 200]);
    h.extend_from_slice(&[0, 1]);
    h.extend_from_slice(&[0, 8]);
    h.extend_from_slice(&[0, 2]);
    h.extend_from_slice(&[0, 1]);
    h.extend_from_slice(&[0, 0]);
    h
}

#[test]
fn font_header_fields() {
    let font = build_font(&[(b"head", head_table())]);
    let h = parse_specific_table(&font, "head").unwrap();
    assert_eq!(string(field(field(&h, "version"), "value")), "1.0");
    assert_eq!(string(field(field(&h, "version"), "type")), "MajorMinor");
    assert_eq!(string(field(field(&h, "fontRevision"), "value")), "1.5");
    assert_eq!(vol(field(&h, "checksumAdjustment")), (7, 8, 4));
    assert_eq!(string(field(field(&h, "magicNumber"), "value")), "0x5F0F3CF5");
    assert_eq!(string(field(field(&h, "flags"), "value")), "0x0003 (Baseline at y=0, LSB at x=0)");
    assert_eq!(vol(field(&h, "unitsPerEm")), (1000, 18, 2));
    assert_eq!(string(field(field(&h, "created"), "value")), "1904-01-01T01:00:00Z");
    assert_eq!(
        string(field(field(&h, "modified"), "value")),
        "2040-02-06T06:28:15Z (low 32 bits; raw 0xFFFFFFFFFFFFFFFF)"
    );
    assert_eq!(vol(field(&h, "xMin")), (-100, 36, 2));
    assert_eq!(string(field(field(&h, "macStyle"), "value")), "0x0001 (Bold)");
    assert_eq!(vol(field(&h, "indexToLocFormat")), (1, 50, 2));
    assert_eq!(vol(field(&h, "glyphDataFormat")), (0, 52, 2));
}

#[test]
fn font_header_too_short() {
    let font = build_font(&[(b"head", vec![0; 40])]);
    assert_eq!(parse_specific_table(&font, "head").unwrap_err(), "An offset was out of bounds");
}

#[test]
fn every_layout_field_lies_within_the_table() {
    let font = build_font(&[(b"head", head_table())]);
    let h = parse_specific_table(&font, "head").unwrap();
    match &h {
        Json::Obj(entries) => {
            for (_, f) in entries {
                let o = num(field(f, "offset"));
                let l = num(field(f, "length"));
                assert!(l >= 1 && o + l <= 54);
            }
        },
        _ => panic!("not an object"),
    }
}

#[test]
fn maximum_profile_leaves_out_fields_past_the_end() {
    let mut t = vec![0, 1, 0, 0, 0, 9];
    t.extend_from_slice(&[0, 50, 0, 4]);
    let m = maxp::parse_table(&t).unwrap();
    assert_eq!(string(field(field(&m, "version"), "value")), "1.0");
    assert_eq!(vol(field(&m, "maxPoints")), (50, 6, 2));
    assert_eq!(vol(field(&m, "maxContours")), (4, 8, 2));
    assert!(!has(&m, "maxCompositePoints"));
    assert_eq!(maxp::parse_table(&[0, 0, 0x50]).unwrap_err(), "An offset was out of bounds");
}

#[test]
fn horizontal_metrics() {
    let mut hhea = vec![0u8; 36];
    hhea[35] = 2;
    let hmtx = vec![0, 100, 0, 5, 0, 200, 0xFF, 0xFE, 0, 7];
    let font = build_font(&[(b"hhea", hhea), (b"hmtx", hmtx)]);
    let m = parse_specific_table(&font, "hmtx").unwrap();
    let longs = items(field(field(&m, "hMetrics"), "value"));
    assert_eq!(longs.len(), 2);
    assert_eq!(vol(field(&longs[1], "advanceWidth")), (200, 4, 2));
    assert_eq!(vol(field(&longs[1], "lsb")), (-2, 6, 2));
    let rest = field(&m, "leftSideBearings");
    assert_eq!((num(field(rest, "offset")), num(field(rest, "length"))), (8, 2));
    assert_eq!(vol(&items(field(rest, "value"))[0]), (7, 8, 2));
    let no_hhea = build_font(&[(b"hmtx", vec![0; 4])]);
    assert_eq!(parse_specific_table(&no_hhea, "hmtx").unwrap_err(), "the hhea table is missing");
}

#[test]
fn vertical_origins() {
    let t = [0, 1, 0, 0, 0x03, 0x70, 0, 1, 0, 5, 0x03, 0x84];
    let v = vorg::parse_table(&t).unwrap();
    assert_eq!(vol(field(&v, "defaultVertOriginY")), (880, 4, 2));
    let m = &items(field(field(&v, "vertOriginYMetrics"), "value"))[0];
    assert_eq!(vol(field(m, "glyphIndex")), (5, 8, 2));
    assert_eq!(vol(field(m, "vertOriginY")), (900, 10, 2));
}

#[test]
fn axis_variations_segment_maps() {
    let t = [0, 1, 0, 0, 0, 0, 0, 1, 0, 2, 0xC0, 0, 0xC0, 0, 0x40, 0, 0x40, 0];
    let a = avar::parse_table(&t).unwrap();
    assert_eq!(vol(field(&a, "axisCount")), (1, 6, 2));
    let maps = field(&a, "axisSegmentMaps");
    assert_eq!((num(field(maps, "offset")), num(field(maps, "length"))), (8, 10));
    let seg = &items(field(maps, "value"))[0];
    assert_eq!(vol(field(seg, "positionMapCount")), (2, 8, 2));
    let v1 = &items(field(field(seg, "axisValueMaps"), "value"))[1];
    assert!(matches!(field(field(v1, "toCoordinate"), "value"), Json::F2Dot14(0x4000)));
    assert_eq!(num(field(field(v1, "toCoordinate"), "offset")), 16);
}

#[test]
fn reader_hands_out_fields_back_to_back() {
    let mut r = Reader::new();
    assert_eq!(r.current_offset(), 0);
    let a = r.read(Scalar::U16(7), 2);
    let b = r.read_as(Json::Str("1.0".to_string()), 4, "Fixed");
    let c = r.read(Scalar::I16(-3), 2);
    assert_eq!(vol(&a), (7, 0, 2));
    assert_eq!(string(field(&a, "type")), "uint16");
    assert_eq!((num(field(&b, "offset")), num(field(&b, "length"))), (2, 4));
    assert_eq!(string(field(&b, "type")), "Fixed");
    assert_eq!(vol(&c), (-3, 6, 2));
    assert_eq!(string(field(&c, "type")), "int16");
    assert_eq!(r.current_offset(), 8);
}

#[test]
fn described_fields_and_raw_reads() {
    let f = parsed_field("uint8", Json::UInt(9), 3, 1);
    assert_eq!(vol(&f), (9, 3, 1));
    assert_eq!(string(field(&f, "type")), "uint8");
    assert_eq!(read_u16_at(&[0x12, 0x34, 0x56], 1), 0x3456);
}

#[test]
fn postscript_glyph_names() {
    let mut t = vec![0, 2, 0, 0, 0xFF, 0xF4, 0x80, 0x00, 0xFF, 0x9C, 0, 50];
    t.extend_from_slice(&[0u8; 20]);
    t.extend_from_slice(&[0, 2, 0x01, 0x02, 0x01, 0x03]);
    t.extend_from_slice(&[3, b'f', b'o', b'o', 2, 0xC3, 0xA9, 3, b'b', b'a', b'r']);
    let p = font_inspect::post::parse_table(&t).unwrap();
    assert_eq!(string(field(field(&p, "version"), "value")), "2.0");
    assert!(matches!(field(field(&p, "italicAngle"), "value"), Json::Fixed(-0x000B_8000)));
    assert_eq!(vol(field(&p, "underlinePosition")), (-100, 8, 2));
    assert_eq!(vol(field(&p, "numGlyphs")), (2, 32, 2));
    let idx: Vec<(i128, i128, i128)> = items(field(field(&p, "glyphNameIndex"), "value")).iter().map(vol).collect();
    assert_eq!(idx, vec![(258, 34, 2), (259, 36, 2)]);
    let sd = field(&p, "stringData");
    assert_eq!((num(field(sd, "offset")), num(field(sd, "length"))), (38, 8));
    let names = items(field(sd, "value"));
    assert_eq!(names.len(), 2);
    assert_eq!(string(field(&names[0], "value")), "foo");
    assert_eq!((num(field(&names[1], "offset")), num(field(&names[1], "length"))), (42, 4));
    assert_eq!(string(field(&names[1], "value")), "bar");
    assert_eq!(font_inspect::post::parse_table(&[0; 20]).unwrap_err(), "An offset was out of bounds");
}
