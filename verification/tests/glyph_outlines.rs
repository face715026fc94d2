use font_inspect::glyf::{
    parse, parse_batch, parse_composite_components, parse_coordinate_array, parse_index_batch,
    parse_single_glyph, resolve_coords_len,
};
use font_inspect::json::Json;
use font_inspect::loca;
use font_inspect::parser::parse_specific_table;

fn build_font(tables: &[(&[u8; 4], Vec<u8>)]) -> Vec<u8> {
    let mut sorted: Vec<(&[u8; 4], Vec<u8>)> = tables.iter().map(|(t, d)| (*t, d.clone())).collect();
    sorted.sort_by(|a, b| a.0.cmp(b.0));
    let n = sorted.len();
    let mut out = Vec::new();
    out.extend_from_slice(&0x0001_0000u32.to_be_bytes());
    out.extend_from_slice(&(n as u16).to_be_bytes());
    out.extend_from_slice(&[0, 16, 0, 0, 0, 0]);
    let mut offset = 12 + 16 * n;
    let mut data = Vec::new();
    for (tag, bytes) in &sorted {
        out.extend_from_slice(&tag[..]);
        out.extend_from_slice(&[0, 0, 0, 0]);
        out.extend_from_slice(&(offset as u32).to_be_bytes());
        out.extend_from_slice(&(bytes.len() as u32).to_be_bytes());
        let mut padded = bytes.clone();
        while padded.len() % 4 != 0 {
            padded.push(0);
        }
        offset += padded.len();
        data.extend_from_slice(&padded);
    }
    out.extend_from_slice(&data);
    out
}

fn field<'a>(j: &'a Json, key: &str) -> &'a Json {
    match j {
        Json::Obj(entries) => match entries.iter().find(|(k, _)| k == key) {
            Some((_, v)) => v,
            None => panic!("no key {}", key),
        },
        _ => panic!("not an object at {}", key),
    }
}

fn num(j: &Json) -> i128 {
    match j {
        Json::UInt(u) => *u as i128,
        Json::Int(i) => *i as i128,
        _ => panic!("not a number"),
    }
}

fn string(j: &Json) -> &str {
    match j {
        Json::Str(s) => s.as_str(),
        _ => panic!("not a string"),
    }
}

fn items(j: &Json) -> &Vec<Json> {
    match j {
        Json::Arr(v) => v,
        _ => panic!("not an array"),
    }
}

fn is_empty_obj(j: &Json) -> bool {
    matches!(j, Json::Obj(v) if v.is_empty())
}

/// (value, offset, length) of a described field.
fn vol(j: &Json) -> (i128, i128, i128) {
    (num(field(j, "value")), num(field(j, "offset")), num(field(j, "length")))
}

fn simple_glyph() -> Vec<u8> {
    let mut g = vec![0, 1, 0, 0, 0, 0, 0, 100, 0, 100];
    g.extend_from_slice(&[0, 2]);
    g.extend_from_slice(&[0, 0]);
    g.extend_from_slice(&[0x01, 0x37, 0x01]);
    g.extend_from_slice(&[0, 10, 20, 0xFF, 0xE2]);
    g.extend_from_slice(&[0, 0, 5, 0, 100]);
    g.push(0);
    g
}

fn composite_glyph() -> Vec<u8> {
    let mut g = vec![0xFF, 0xFF, 0, 0, 0, 0, 0, 0, 0, 0];
    g.extend_from_slice(&[0x00, 0x02, 0, 0, 10, 0xFB]);
    g
}

fn glyf_table() -> Vec<u8> {
    let mut g = simple_glyph();
    g.extend_from_slice(&composite_glyph());
    g
}

fn short_loca() -> Vec<u8> {
    vec![0, 0, 0, 14, 0, 14, 0, 22]
}

fn head(long: bool) -> Vec<u8> {
    let mut h = vec![0u8; 54];
    h[51] = if long { 1 } else { 0 };
    h
}

fn maxp(n: u16) -> Vec<u8> {
    let mut m = vec![0, 0, 0x50, 0];
    m.extend_from_slice(&n.to_be_bytes());
    m
}

fn font() -> Vec<u8> {
    build_font(&[(b"head", head(false)), (b"loca", short_loca()), (b"glyf", glyf_table()), (b"maxp", maxp(3))])
}

#[test]
fn simple_glyph_is_described_field_by_field() {
    let g = parse_single_glyph(&short_loca(), false, &glyf_table(), 0);
    let header = field(&g, "header");
    assert_eq!((num(field(header, "offset")), num(field(header, "length"))), (0, 10));
    let h = field(header, "value");
    assert_eq!(vol(field(h, "numberOfContours")), (1, 0, 2));
    assert_eq!(vol(field(h, "xMax")), (100, 6, 2));
    let simple = field(&g, "simple");
    assert_eq!((num(field(simple, "offset")), num(field(simple, "length"))), (10, 18));
    let s = field(simple, "value");
    let ends = field(s, "endPtsOfContours");
    assert_eq!((num(field(ends, "offset")), num(field(ends, "length"))), (10, 2));
    assert_eq!(vol(&items(field(ends, "value"))[0]), (2, 10, 2));
    assert_eq!(vol(field(s, "instructionLength")), (0, 12, 2));
    assert_eq!(items(field(field(s, "instructions"), "value")).len(), 0);
    let flags = field(s, "flags");
    assert_eq!((num(field(flags, "offset")), num(field(flags, "length"))), (14, 3));
    let f1 = &items(field(flags, "value"))[1];
    assert_eq!(vol(f1), (0x37, 15, 1));
    assert_eq!(string(field(f1, "summary")), "0x37 (ON_CURVE, X_SHORT, Y_SHORT, X_SAME/POS, Y_SAME/POS)");
    let xs = field(s, "xCoordinates");
    assert_eq!((num(field(xs, "offset")), num(field(xs, "length"))), (17, 5));
    let xv = items(field(xs, "value"));
    assert_eq!(xv.len(), 3);
    assert_eq!(vol(&xv[0]), (10, 17, 2));
    assert_eq!(string(field(&xv[1], "type")), "uint8");
    assert_eq!(vol(&xv[1]), (20, 19, 1));
    assert_eq!(vol(&xv[2]), (-30, 20, 2));
    let ys = field(s, "yCoordinates");
    assert_eq!((num(field(ys, "offset")), num(field(ys, "length"))), (22, 5));
    let yv = items(field(ys, "value"));
    assert_eq!(vol(&yv[0]), (0, 22, 2));
    assert_eq!(vol(&yv[1]), (5, 24, 1));
    assert_eq!(vol(&yv[2]), (100, 25, 2));
}

#[test]
fn empty_glyph_is_an_empty_object() {
    let g = parse_single_glyph(&short_loca(), false, &glyf_table(), 1);
    assert!(is_empty_obj(&g));
}

#[test]
fn composite_glyph_components_are_shown_after_the_header() {
    let g = parse_single_glyph(&short_loca(), false, &glyf_table(), 2);
    let h = field(field(&g, "header"), "value");
    assert_eq!(vol(field(h, "numberOfContours")), (-1, 28, 2));
    let c = field(&g, "composite");
    assert_eq!((num(field(c, "offset")), num(field(c, "length"))), (38, 6));
    let comps = field(field(c, "value"), "components");
    assert_eq!((num(field(comps, "offset")), num(field(comps, "length"))), (48, 6));
    let c0 = &items(field(comps, "value"))[0];
    assert_eq!((num(field(c0, "offset")), num(field(c0, "length"))), (48, 6));
    let v = field(c0, "value");
    assert_eq!(vol(field(v, "flags")), (2, 48, 2));
    assert_eq!(string(field(field(v, "flags"), "summary")), "0x0002 (ARGS_XY)");
    assert_eq!(vol(field(v, "glyphIndex")), (0, 50, 2));
    assert_eq!(string(field(field(v, "argument1"), "type")), "int8");
    assert_eq!(vol(field(v, "argument1")), (10, 52, 1));
    assert_eq!(vol(field(v, "argument2")), (-5, 53, 1));
}

#[test]
fn unreadable_glyphs_report_an_error() {
    let loca = vec![0, 0, 0, 40];
    let g = parse_single_glyph(&loca, false, &glyf_table(), 0);
    assert_eq!(string(field(&g, "error")), "An offset was out of bounds");
    let past = parse_single_glyph(&short_loca(), false, &glyf_table(), 3);
    assert_eq!(string(field(&past, "error")), "An offset was out of bounds");
    let tiny = parse_single_glyph(&[0, 0, 0, 1], false, &[0, 1], 0);
    assert_eq!(string(field(&tiny, "error")), "An offset was out of bounds");
}

#[test]
fn long_offsets_locate_glyphs() {
    let loca: Vec<u8> = vec![0, 0, 0, 0, 0, 0, 0, 28];
    let g = parse_single_glyph(&loca, true, &glyf_table(), 0);
    assert_eq!(vol(field(field(field(&g, "header"), "value"), "numberOfContours")), (1, 0, 2));
}

#[test]
fn coordinate_lengths() {
    assert_eq!(resolve_coords_len(&[0x01, 0x37, 0x01, 9], 3), Ok((3, 5, 5)));
    assert_eq!(resolve_coords_len(&[0x09, 2], 3), Ok((2, 6, 6)));
    assert_eq!(resolve_coords_len(&[0x09, 5], 3), Err(()));
    assert_eq!(resolve_coords_len(&[0x01], 2), Err(()));
    assert_eq!(resolve_coords_len(&[], 0), Ok((0, 0, 0)));
}

#[test]
fn coordinates_follow_flags() {
    let xs = parse_coordinate_array(&[0x02, 0x12], &[7, 8], true, 100);
    assert_eq!(xs.len(), 2);
    assert_eq!(vol(&xs[0]), (-7, 100, 1));
    assert_eq!(vol(&xs[1]), (8, 101, 1));
    let same = parse_coordinate_array(&[0x10], &[], true, 0);
    assert_eq!(same.len(), 0);
}

#[test]
fn component_list_stops_without_more_components() {
    let data = [0x00, 0x21, 0, 1, 1, 2, 0x01, 0x02, 0, 2, 0, 3, 0xFF, 0xFE, 0, 0];
    let (comps, len, instr) = parse_composite_components(&data, 10);
    assert_eq!(comps.len(), 2);
    assert_eq!(len, 14);
    assert!(!instr);
    let second = field(&comps[1], "value");
    assert_eq!(vol(field(second, "argument1")), (-1, 22, 1));
    assert_eq!(vol(field(second, "argument2")), (-2, 23, 1));
    assert_eq!(vol(field(field(&comps[0], "value"), "argument1")), (0x0102, 14, 2));
}

#[test]
fn batches_page_through_glyphs() {
    let f = font();
    let b = parse_batch(&f, 0, 2).unwrap();
    let first = items(field(&b, "items"));
    assert_eq!(first.len(), 2);
    assert_eq!(num(field(&first[0], "rowIndex")), 0);
    assert_eq!(num(field(&first[1], "rowIndex")), 1);
    assert_eq!(num(field(&b, "next_offset")), 2);
    let b2 = parse_batch(&f, 2, 2).unwrap();
    let second = items(field(&b2, "items"));
    assert_eq!(second.len(), 1);
    assert_eq!(num(field(&second[0], "rowIndex")), 2);
    assert_eq!(num(field(&b2, "next_offset")), 3);
    let all = parse_batch(&f, 0, 3).unwrap();
    let rows: Vec<i128> = items(field(&all, "items")).iter().map(|i| num(field(i, "rowIndex"))).collect();
    assert_eq!(rows, vec![0, 1, 2]);
    let past = parse_batch(&f, 5, 10).unwrap();
    assert_eq!(items(field(&past, "items")).len(), 0);
    assert_eq!(num(field(&past, "next_offset")), 5);
    let none = parse_batch(&f, 0, 0).unwrap();
    assert_eq!(num(field(&none, "next_offset")), 0);
}

#[test]
fn index_search_gives_exactly_that_glyph() {
    let f = font();
    let b = parse_index_batch(&f, 0, Some(2)).unwrap();
    let found = items(field(&b, "items"));
    assert_eq!(found.len(), 1);
    assert_eq!(num(field(&found[0], "rowIndex")), 2);
    assert_eq!(num(field(&b, "next_offset")), 3);
    assert_eq!(items(field(&parse_index_batch(&f, 0, Some(7)).unwrap(), "items")).len(), 0);
    assert_eq!(items(field(&parse_index_batch(&f, 3, Some(2)).unwrap(), "items")).len(), 0);
    assert_eq!(items(field(&parse_index_batch(&f, 0, None).unwrap(), "items")).len(), 0);
}

#[test]
fn glyph_table_is_a_lazy_array() {
    let f = font();
    let g = parse(&f).unwrap();
    assert!(matches!(field(&g, "_is_lazy_array"), Json::Bool(true)));
    assert_eq!(string(field(&g, "lazy_command")), "parse_glyf_batch");
    assert_eq!(num(field(&g, "total")), 3);
    assert_eq!(items(field(&g, "loaded")).len(), 3);
}

#[test]
fn glyph_table_errors() {
    let no_glyf = build_font(&[(b"head", head(false)), (b"loca", short_loca()), (b"maxp", maxp(3))]);
    assert_eq!(parse(&no_glyf).unwrap_err(), "the glyf table is missing");
    let no_maxp = build_font(&[(b"head", head(false)), (b"loca", short_loca()), (b"glyf", glyf_table())]);
    assert_eq!(parse(&no_maxp).unwrap_err(), "the maxp table is missing");
    let odd = build_font(&[(b"head", head(true)), (b"loca", short_loca()[..6].to_vec()), (b"glyf", glyf_table()), (b"maxp", maxp(3))]);
    assert_eq!(parse_batch(&odd, 0, 1).unwrap_err(), "Specified array length not a multiple of item size");
}

#[test]
fn location_table_offsets() {
    let l = loca::parse(&font()).unwrap();
    let offs = field(&l, "offsets");
    assert_eq!(string(field(offs, "type")), "Offset16[]");
    assert_eq!((num(field(offs, "offset")), num(field(offs, "length"))), (0, 8));
    let v: Vec<(i128, i128, i128)> = items(field(offs, "value")).iter().map(vol).collect();
    assert_eq!(v, vec![(0, 0, 2), (28, 2, 2), (28, 4, 2), (44, 6, 2)]);
}

#[test]
fn glyph_header_stands_at_its_location_offset() {
    let l = loca::parse(&font()).unwrap();
    let shown: Vec<i128> = items(field(field(&l, "offsets"), "value")).iter().map(|o| num(field(o, "value"))).collect();
    for i in [0usize, 2] {
        let g = parse_single_glyph(&short_loca(), false, &glyf_table(), i);
        assert_eq!(num(field(field(&g, "header"), "offset")), shown[i]);
    }
}

#[test]
fn dispatcher_reaches_glyph_and_location_parsers() {
    let f = font();
    let g = parse_specific_table(&f, "glyf").unwrap();
    assert_eq!(format!("{:?}", g), format!("{:?}", parse(&f).unwrap()));
    assert_eq!(string(field(&g, "lazy_command")), "parse_glyf_batch");
    let l = parse_specific_table(&f, "loca").unwrap();
    assert_eq!(format!("{:?}", l), format!("{:?}", loca::parse(&f).unwrap()));
    assert_eq!(parse_specific_table(&f, "vhea").unwrap_err(), "the vhea table is missing");
}
