use font_inspect::cff_common::{
    get_dict_entry_offsets, get_dict_operand_offsets, parse_charset, parse_charstrings, parse_fd_select, parse_index,
};
use font_inspect::cmap::{encoding_label, format_codepoint, format_platform_id, parse_table};
use font_inspect::json::Json;

fn field<'a>(j: &'a Json, key: &str) -> &'a Json {
    match j {
        Json::Obj(entries) => match entries.iter().find(|(k, _)| k == key) {
            Some((_, v)) => v,
            None => panic!("no key {}", key),
        },
        _ => panic!("not an object at {}", key),
    }
}

fn has(j: &Json, key: &str) -> bool {
    match j {
        Json::Obj(entries) => entries.iter().any(|(k, _)| k == key),
        _ => false,
    }
}

fn num(j: &Json) -> i128 {
    match j {
        Json::UInt(u) => *u as i128,
        Json::Int(i) => *i as i128,
        _ => panic!("not a number"),
    }
}

fn string(j: &Json) -> &str {
    match j {
        Json::Str(s) => s.as_str(),
        _ => panic!("not a string"),
    }
}

fn items(j: &Json) -> &Vec<Json> {
    match j {
        Json::Arr(v) => v,
        _ => panic!("not an array"),
    }
}

fn vol(j: &Json) -> (i128, i128, i128) {
    (num(field(j, "value")), num(field(j, "offset")), num(field(j, "length")))
}

fn cmap_table() -> Vec<u8> {
    let mut c = vec![0, 0, 0, 3];
    c.extend_from_slice(&[0, 3, 0, 1, 0, 0, 0, 30]);
    c.extend_from_slice(&[0, 0, 0, 3, 0, 0, 0, 0]);
    c.extend_from_slice(&[0, 3, 0, 10, 0, 0, 0, 28]);
    c.extend_from_slice(&[0, 15]);
    c.extend_from_slice(&[0, 4, 0, 32, 0, 0, 0, 4, 0, 4, 0, 1, 0, 0]);
    c.extend_from_slice(&[0, 0x41, 0xFF, 0xFF]);
    c.extend_from_slice(&[0, 0]);
    c.extend_from_slice(&[0, 0x41, 0xFF, 0xFF]);
    c.extend_from_slice(&[0xFF, 0xC0, 0, 1]);
    c.extend_from_slice(&[0, 0, 0, 0]);
    c
}

#[test]
fn codepoints_and_platforms() {
    assert_eq!(format_codepoint(0x41), "U+0041");
    assert_eq!(format_codepoint(0x1F600), "U+1F600");
    assert_eq!(format_platform_id(3), "3 (Windows)");
    assert_eq!(format_platform_id(0), "0 (Unicode)");
    assert_eq!(encoding_label(0, 5).as_deref(), Some("5 (Unicode Variation Sequences)"));
    assert_eq!(encoding_label(3, 1).as_deref(), Some("1 (Unicode BMP)"));
}

#[test]
fn format4_subtable_is_described() {
    let c = parse_table(&cmap_table()).unwrap();
    assert_eq!(vol(field(&c, "numTables")), (3, 2, 2));
    let recs = items(field(field(&c, "encodingRecords"), "value"));
    assert_eq!(recs.len(), 3);
    assert_eq!(string(field(field(&recs[0], "platformID"), "value")), "3 (Windows)");
    assert_eq!(string(field(field(&recs[0], "encodingID"), "summary")), "1 (Unicode BMP)");
    assert_eq!(vol(field(&recs[0], "subtableOffset")), (30, 8, 4));
    let sub = field(&recs[0], "subtable");
    assert_eq!((num(field(sub, "offset")), num(field(sub, "length"))), (30, 32));
    let s = field(sub, "value");
    assert_eq!(vol(field(s, "format")), (4, 30, 2));
    assert_eq!(vol(field(s, "segCountX2")), (4, 36, 2));
    let end: Vec<(i128, i128, i128)> = items(field(field(s, "endCode"), "value")).iter().map(vol).collect();
    assert_eq!(end, vec![(0x41, 44, 2), (0xFFFF, 46, 2)]);
    assert_eq!(vol(field(s, "reservedPad")), (0, 48, 2));
    let delta: Vec<(i128, i128, i128)> = items(field(field(s, "idDelta"), "value")).iter().map(vol).collect();
    assert_eq!(delta, vec![(-64, 54, 2), (1, 56, 2)]);
    let glyphs = field(s, "glyphIdArray");
    assert_eq!((num(field(glyphs, "offset")), num(field(glyphs, "length"))), (62, 0));
}

#[test]
fn unreadable_subtables_show_why() {
    let c = parse_table(&cmap_table()).unwrap();
    let recs = items(field(field(&c, "encodingRecords"), "value"));
    assert_eq!(string(field(field(&recs[1], "subtable"), "value")), "<An offset was unexpectedly null>");
    assert!(!has(&recs[1], "nothing"));
    assert_eq!(string(field(field(&recs[2], "subtable"), "value")), "<Invalid format '15'>");
    assert_eq!(num(field(field(&recs[2], "subtable"), "length")), 0);
    assert_eq!(parse_table(&[0, 0]).unwrap_err(), "An offset was out of bounds");
}

#[test]
fn dict_entries_cover_operands_and_operators() {
    let data = [0x8B, 0x00, 0x1C, 0x01, 0x00, 0x0C, 0x03, 0x1E, 0x12, 0xFF, 0x05, 0x8B];
    let entries = get_dict_entry_offsets(&data);
    assert_eq!(entries, vec![(0, 2), (2, 5), (7, 4)]);
    for w in entries.windows(2) {
        assert_eq!(w[0].0 + w[0].1, w[1].0);
    }
    assert_eq!(get_dict_operand_offsets(&[0x1C, 0x01, 0x00, 0x8B, 0x0C, 0x03]), vec![(0, 3), (3, 1)]);
    assert_eq!(get_dict_operand_offsets(&[0x1D, 0, 0, 0, 1, 0xF7, 0x00, 0x11]), vec![(0, 5), (5, 2)]);
    assert_eq!(get_dict_entry_offsets(&[]), vec![]);
}

#[test]
fn index_fields() {
    let t = [9, 0, 2, 1, 1, 3, 4, b'a', b'b', b'c'];
    let ix = parse_index(&t, 1, 9, Json::Arr(vec![]), "String", false);
    assert_eq!(vol(field(&ix, "count")), (2, 1, 2));
    assert_eq!(vol(field(&ix, "offsetSize")), (1, 3, 1));
    let offs = field(&ix, "offsets");
    assert_eq!(string(field(offs, "type")), "Offset8[]");
    let o: Vec<(i128, i128, i128)> = items(field(offs, "value")).iter().map(vol).collect();
    assert_eq!(o, vec![(1, 4, 1), (3, 5, 1), (4, 6, 1)]);
    let data = field(&ix, "data");
    assert_eq!(string(field(data, "type")), "String[]");
    assert_eq!((num(field(data, "offset")), num(field(data, "length"))), (7, 3));
    let empty = parse_index(&[0, 0], 0, 2, Json::Arr(vec![]), "String", false);
    assert_eq!(vol(field(&empty, "count")), (0, 0, 2));
    assert!(!has(&empty, "offsetSize"));
    let cff2 = parse_index(&[0, 0, 0, 1, 1, 1, 2, 7], 0, 8, Json::Arr(vec![]), "DICT", true);
    assert_eq!(string(field(field(&cff2, "count"), "type")), "uint32");
    assert_eq!(vol(field(&cff2, "count")), (1, 0, 4));
}

#[test]
fn charsets() {
    let mut t = vec![0u8; 4];
    t.extend_from_slice(&[0, 0, 5, 0, 7]);
    let (c0, size0) = parse_charset(4, &t, 3).unwrap();
    assert_eq!(size0, 5);
    let g: Vec<(i128, i128, i128)> = items(field(field(&c0, "glyph"), "value")).iter().map(vol).collect();
    assert_eq!(g, vec![(5, 5, 2), (7, 7, 2)]);
    let mut t1 = vec![0u8; 4];
    t1.extend_from_slice(&[1, 0, 1, 2, 0, 9, 0, 0, 20, 5]);
    let (c1, size1) = parse_charset(4, &t1, 5).unwrap();
    assert_eq!(size1, 7);
    let ranges = items(field(field(&c1, "ranges"), "value"));
    assert_eq!(ranges.len(), 2);
    assert_eq!(vol(field(field(&ranges[1], "value"), "first")), (9, 8, 2));
    assert_eq!(vol(field(field(&ranges[1], "value"), "nLeft")), (0, 10, 1));
    assert!(parse_charset(2, &t1, 5).is_none());
    assert!(parse_charset(40, &t1, 5).is_none());
    let mut bad = vec![0u8; 4];
    bad.extend_from_slice(&[7, 0, 0]);
    assert!(parse_charset(4, &bad, 2).is_none());
}

#[test]
fn fd_selects() {
    let mut t = vec![0u8; 3];
    t.extend_from_slice(&[0, 1, 0, 2]);
    let (f0, size0) = parse_fd_select(3, &t, 3).unwrap();
    assert_eq!(size0, 4);
    assert_eq!(vol(field(&f0, "format")), (0, 3, 1));
    let ids = field(&f0, "fontDictIDs");
    assert_eq!((num(field(ids, "offset")), num(field(ids, "length"))), (4, 3));
    let fds: Vec<i128> = items(field(ids, "value")).iter().map(num).collect();
    assert_eq!(fds, vec![1, 0, 2]);
    let mut t3 = vec![0u8; 2];
    t3.extend_from_slice(&[3, 0, 1, 0, 0, 4, 0, 9]);
    let (f3, size3) = parse_fd_select(2, &t3, 9).unwrap();
    assert_eq!(size3, 8);
    assert_eq!(vol(field(&f3, "numRanges")), (1, 3, 2));
    let r0 = &items(field(field(&f3, "ranges"), "value"))[0];
    assert_eq!(vol(field(field(r0, "value"), "first")), (0, 5, 2));
    assert_eq!(vol(field(field(r0, "value"), "fontDictID")), (4, 7, 1));
    assert_eq!(vol(field(&f3, "sentinel")), (9, 8, 2));
    assert!(parse_fd_select(9, &t3, 9).is_none());
}

#[test]
fn charstrings_are_described_by_their_lengths() {
    // Two bytes of padding, then an INDEX of two charstrings (3 and 1 bytes).
    let t = [0xAA, 0xBB, 0, 2, 1, 1, 4, 5, 14, 14, 14, 14];
    let (ix, size, count) = parse_charstrings(2, &t, false).unwrap();
    assert_eq!((size, count), (10, 2));
    let data = field(&ix, "data");
    assert_eq!(string(field(data, "type")), "Bytecode[]");
    let objs = items(field(data, "value"));
    assert_eq!(objs.len(), 2);
    assert_eq!(string(field(&objs[0], "value")), "[3 bytes]");
    assert_eq!((num(field(&objs[0], "offset")), num(field(&objs[0], "length"))), (8, 3));
    assert_eq!(string(field(&objs[1], "value")), "[1 bytes]");
    assert_eq!((num(field(&objs[1], "offset")), num(field(&objs[1], "length"))), (11, 1));
    assert!(parse_charstrings(13, &t, false).is_none());
    assert!(parse_charstrings(11, &t, false).is_none());
    let (empty, size0, count0) = parse_charstrings(0, &[0, 0], false).unwrap();
    assert_eq!((size0, count0), (0, 0));
    assert_eq!(num(field(field(&empty, "count"), "value")), 0);
}

#[test]
fn entry_operands_end_at_the_operator() {
    // 1 2 FontBBox-like op 5; real 1.5 then escape op 12 7; int32 then op 17; op 12 at end.
    let d = [140u8, 141, 5, 30, 0x1a, 0x5f, 12, 7, 29, 0, 0, 1, 0, 17, 12];
    let entries = get_dict_entry_offsets(&d);
    assert_eq!(entries, vec![(0, 3), (3, 5), (8, 6), (14, 1)]);
    for (s, l) in entries {
        let sub = &d[s..s + l];
        let ops = get_dict_operand_offsets(sub);
        let e = ops.last().map_or(0, |(p, n)| p + n);
        assert!(e < l);
        assert!(sub[e] <= 27 || sub[e] == 31);
        assert_eq!(l - e, if sub[e] == 12 && e + 1 < l { 2 } else { 1 });
    }
}
