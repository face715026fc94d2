use font_inspect::gvar::{parse, parse_batch, parse_index_batch, parse_single_glyph};
use font_inspect::json::Json;

fn build_font(tables: &[(&[u8; 4], Vec<u8>)]) -> Vec<u8> {
    let mut sorted: Vec<(&[u8; 4], Vec<u8>)> = tables.iter().map(|(t, d)| (*t, d.clone())).collect();
    sorted.sort_by(|a, b| a.0.cmp(b.0));
    let n = sorted.len();
    let mut out = Vec::new();
    out.extend_from_slice(&0x0001_0000u32.to_be_bytes());
    out.extend_from_slice(&(n as u16).to_be_bytes());
    out.extend_from_slice(&[0, 16, 0, 0, 0, 0]);
    let mut offset = 12 + 16 * n;
    let mut data = Vec::new();
    for (tag, bytes) in &sorted {
        out.extend_from_slice(&tag[..]);
        out.extend_from_slice(&[0, 0, 0, 0]);
        out.extend_from_slice(&(offset as u32).to_be_bytes());
        out.extend_from_slice(&(bytes.len() as u32).to_be_bytes());
        let mut padded = bytes.clone();
        while padded.len() % 4 != 0 {
            padded.push(0);
        }
        offset += padded.len();
        data.extend_from_slice(&padded);
    }
    out.extend_from_slice(&data);
    out
}

fn field<'a>(j: &'a Json, key: &str) -> &'a Json {
    match j {
        Json::Obj(entries) => match entries.iter().find(|(k, _)| k == key) {
            Some((_, v)) => v,
            None => panic!("no key {}", key),
        },
        _ => panic!("not an object at {}", key),
    }
}

fn num(j: &Json) -> i128 {
    match j {
        Json::UInt(u) => *u as i128,
        Json::Int(i) => *i as i128,
        _ => panic!("not a number"),
    }
}

fn string(j: &Json) -> &str {
    match j {
        Json::Str(s) => s.as_str(),
        _ => panic!("not a string"),
    }
}

fn items(j: &Json) -> &Vec<Json> {
    match j {
        Json::Arr(v) => v,
        _ => panic!("not an array"),
    }
}

fn span(j: &Json) -> (i128, i128) {
    (num(field(j, "offset")), num(field(j, "length")))
}

fn vol(j: &Json) -> (i128, i128, i128) {
    (num(field(j, "value")), num(field(j, "offset")), num(field(j, "length")))
}

fn gvar_table() -> Vec<u8> {
    let mut t = vec![0, 1, 0, 0, 0, 1, 0, 1, 0, 0, 0, 26, 0, 2, 0, 0, 0, 0, 0, 28];
    t.extend_from_slice(&[0, 0, 0, 8, 0, 8]);
    t.extend_from_slice(&[0x40, 0]);
    t.extend_from_slice(&[0, 1, 0, 8]);
    t.extend_from_slice(&[0, 8, 0x20, 0x00]);
    t.extend_from_slice(&[0x02, 0x01, 0x00, 0x01, 0x01, 5, 0xFB, 0x81]);
    t
}

#[test]
fn glyph_variation_data_is_described() {
    let t = gvar_table();
    let g = parse_single_glyph(&t, 0);
    assert_eq!(span(&g), (28, 16));
    let v = field(&g, "value");
    let header = field(v, "header");
    assert_eq!(span(header), (28, 8));
    let h = field(header, "value");
    assert_eq!(vol(field(h, "tupleVariationCount")), (1, 28, 2));
    assert_eq!(string(field(field(h, "tupleVariationCount"), "summary")), "0x0001 (count: 1)");
    assert_eq!(vol(field(h, "dataOffset")), (8, 30, 2));
    let headers = field(h, "tupleVariationHeaders");
    assert_eq!(span(headers), (32, 4));
    let t0 = &items(field(headers, "value"))[0];
    assert_eq!(span(t0), (32, 4));
    let tv = field(t0, "value");
    assert_eq!(vol(field(tv, "variationDataSize")), (8, 32, 2));
    assert_eq!(string(field(field(tv, "tupleIndex"), "summary")), "0x2000 (PRIVATE_POINT_NUMBERS, index: 0)");
    let peak = field(tv, "peakTuple");
    assert_eq!(span(peak), (26, 2));
    let p0 = &items(field(peak, "value"))[0];
    assert!(matches!(field(p0, "value"), Json::F2Dot14(0x4000)));
    let ser = field(v, "serializedData");
    assert_eq!(span(ser), (36, 8));
    let per = field(field(ser, "value"), "perTupleData");
    assert_eq!(span(per), (36, 8));
    let d0 = &items(field(per, "value"))[0];
    assert_eq!(span(d0), (36, 8));
    let dv = field(d0, "value");
    let pts = field(dv, "privatePointNumbers");
    assert_eq!(span(pts), (36, 4));
    assert_eq!(vol(&items(field(pts, "value"))[0]), (2, 36, 1));
    assert_eq!(span(field(dv, "xPackedDeltas")), (40, 3));
    assert_eq!(vol(&items(field(field(dv, "xPackedDeltas"), "value"))[2]), (0xFB, 42, 1));
    assert_eq!(span(field(dv, "yPackedDeltas")), (43, 1));
}

#[test]
fn glyph_without_variation_data() {
    let g = parse_single_glyph(&gvar_table(), 1);
    assert_eq!(span(&g), (44, 0));
    assert!(matches!(field(&g, "value"), Json::Obj(v) if v.is_empty()));
}

#[test]
fn glyph_variations_table() {
    let font = build_font(&[(b"gvar", gvar_table())]);
    let g = parse(&font).unwrap();
    assert_eq!(vol(field(&g, "glyphCount")), (2, 12, 2));
    assert_eq!(string(field(field(&g, "flags"), "summary")), "0x0000 (SHORT_OFFSETS)");
    let offs = field(&g, "glyphVariationDataOffsets");
    assert_eq!(string(field(offs, "type")), "Offset16[]");
    let v: Vec<(i128, i128, i128)> = items(field(offs, "value")).iter().map(vol).collect();
    assert_eq!(v, vec![(0, 20, 2), (16, 22, 2), (16, 24, 2)]);
    let shared = field(&g, "sharedTuples");
    assert_eq!(span(shared), (26, 2));
    assert_eq!(span(&items(field(shared, "value"))[0]), (26, 2));
    let data = field(&g, "glyphVariationData");
    assert_eq!(span(data), (28, 16));
    assert_eq!(string(field(data, "summary")), "[2 records]");
    let lazy = field(data, "value");
    assert_eq!(string(field(lazy, "lazy_command")), "parse_gvar_batch");
    assert_eq!(num(field(lazy, "total")), 2);
    assert_eq!(items(field(lazy, "loaded")).len(), 2);
}

#[test]
fn glyph_variation_batches() {
    let font = build_font(&[(b"gvar", gvar_table())]);
    let b = parse_batch(&font, 1, 5).unwrap();
    let it = items(field(&b, "items"));
    assert_eq!(it.len(), 1);
    assert_eq!(num(field(&it[0], "rowIndex")), 1);
    assert_eq!(num(field(&b, "next_offset")), 2);
    let ix = parse_index_batch(&font, 0, Some(0)).unwrap();
    assert_eq!(num(field(&items(field(&ix, "items"))[0], "rowIndex")), 0);
    assert_eq!(num(field(&ix, "next_offset")), 2);
    let short = build_font(&[(b"gvar", vec![0; 10])]);
    assert_eq!(parse(&short).unwrap_err(), "An offset was out of bounds");
    let none = build_font(&[(b"head", vec![0; 54])]);
    assert_eq!(parse_batch(&none, 0, 1).unwrap_err(), "the gvar table is missing");
}

fn cvar_table(data_offset: u8) -> Vec<u8> {
    let mut t = vec![0, 1, 0, 0, 0, 1, 0, data_offset];
    t.extend_from_slice(&[0, 5, 0xA0, 0x00, 0x40, 0x00]);
    t.extend_from_slice(&[0x01, 0x00, 0x03, 0x00, 0x0A]);
    t
}

fn fvar_header() -> Vec<u8> {
    vec![0, 1, 0, 0, 0, 16, 0, 2, 0, 1, 0, 20, 0, 0, 0, 4]
}

#[test]
fn control_value_variations() {
    let font = build_font(&[(b"cvar", cvar_table(14)), (b"fvar", fvar_header())]);
    let c = font_inspect::cvar::parse(&font).unwrap();
    assert_eq!(vol(field(&c, "tupleVariationCount")), (1, 4, 2));
    assert_eq!(vol(field(&c, "dataOffset")), (14, 6, 2));
    let headers = field(&c, "tupleVariationHeaders");
    assert_eq!(span(headers), (8, 6));
    let h0 = field(&items(field(headers, "value"))[0], "value");
    assert_eq!(vol(field(h0, "variationDataSize")), (5, 8, 2));
    assert_eq!(
        string(field(field(h0, "tupleIndex"), "summary")),
        "0xA000 (EMBEDDED_PEAK_TUPLE, PRIVATE_POINT_NUMBERS)"
    );
    assert_eq!(span(field(h0, "peakTuple")), (12, 2));
    let ser = field(&c, "serializedData");
    assert_eq!(span(ser), (14, 5));
    let d0 = &items(field(field(field(ser, "value"), "perTupleData"), "value"))[0];
    assert_eq!(span(d0), (14, 5));
    assert_eq!(span(field(field(d0, "value"), "privatePointNumbers")), (14, 3));
    let deltas = field(field(d0, "value"), "cvtPackedDeltas");
    assert_eq!(span(deltas), (17, 2));
    assert_eq!(vol(&items(field(deltas, "value"))[1]), (10, 18, 1));
}

#[test]
fn control_value_variations_errors() {
    let null = build_font(&[(b"cvar", cvar_table(0)), (b"fvar", fvar_header())]);
    assert_eq!(font_inspect::cvar::parse(&null).unwrap_err(), "An offset was unexpectedly null");
    let no_fvar = build_font(&[(b"cvar", cvar_table(14))]);
    assert_eq!(font_inspect::cvar::parse(&no_fvar).unwrap_err(), "the fvar table is missing");
    let past = build_font(&[(b"cvar", cvar_table(40)), (b"fvar", fvar_header())]);
    assert_eq!(font_inspect::cvar::parse(&past).unwrap_err(), "An offset was out of bounds");
}

#[test]
fn tuple_headers_and_data_follow_one_another() {
    let mut t = vec![0, 1, 0, 0, 0, 1, 0, 0, 0, 0, 0, 0, 0, 1, 0, 0, 0, 0, 0, 24];
    t.extend_from_slice(&[0, 0, 0, 14]);
    t.extend_from_slice(&[0, 2, 0, 16]);
    t.extend_from_slice(&[0, 6, 0xA0, 0x00, 0x40, 0x00]);
    t.extend_from_slice(&[0, 6, 0xA0, 0x00, 0xC0, 0x00]);
    t.extend_from_slice(&[0x01, 0x00, 0x00, 0x00, 5, 0x80]);
    t.extend_from_slice(&[0x01, 0x00, 0x00, 0x00, 7, 0x80]);
    let g = parse_single_glyph(&t, 0);
    assert_eq!(span(&g), (24, 28));
    let v = field(&g, "value");
    let headers = items(field(field(field(field(v, "header"), "value"), "tupleVariationHeaders"), "value"));
    let hs: Vec<(i128, i128)> = headers.iter().map(span).collect();
    assert_eq!(hs, vec![(28, 6), (34, 6)]);
    let data = items(field(field(field(field(v, "serializedData"), "value"), "perTupleData"), "value"));
    assert_eq!(data.len(), 2);
    let ds: Vec<(i128, i128)> = data.iter().map(span).collect();
    assert_eq!(ds, vec![(40, 6), (46, 6)]);
    assert_eq!(span(field(field(&data[1], "value"), "xPackedDeltas")), (49, 2));
    assert_eq!(span(field(field(&data[1], "value"), "yPackedDeltas")), (51, 1));
    for w in hs.windows(2) {
        assert_eq!(w[0].0 + w[0].1, w[1].0);
    }
}
