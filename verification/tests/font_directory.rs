use font_inspect::font::{check_open, font_info, font_table_data, load_table, tag_string};
use font_inspect::json::Json;
use font_inspect::parser::parse_specific_table;
use font_inspect::table_directory;

fn be16(v: u16) -> [u8; 2] {
    v.to_be_bytes()
}

fn be32(v: u32) -> [u8; 4] {
    v.to_be_bytes()
}

/// Builds a font from its tables, the records sorted by tag.
fn build_font(version: u32, tables: &[(&[u8; 4], Vec<u8>)]) -> Vec<u8> {
    let mut sorted: Vec<(&[u8; 4], Vec<u8>)> = tables.iter().map(|(t, d)| (*t, d.clone())).collect();
    sorted.sort_by(|a, b| a.0.cmp(b.0));
    let n = sorted.len();
    let mut out = Vec::new();
    out.extend_from_slice(&be32(version));
    out.extend_from_slice(&be16(n as u16));
    out.extend_from_slice(&be16(16));
    out.extend_from_slice(&be16(0));
    out.extend_from_slice(&be16(0));
    let mut offset = 12 + 16 * n;
    let mut data = Vec::new();
    for (tag, bytes) in &sorted {
        out.extend_from_slice(&tag[..]);
        out.extend_from_slice(&be32(0));
        out.extend_from_slice(&be32(offset as u32));
        out.extend_from_slice(&be32(bytes.len() as u32));
        let mut padded = bytes.clone();
        while padded.len() % 4 != 0 {
            padded.push(0);
        }
        offset += padded.len();
        data.extend_from_slice(&padded);
    }
    out.extend_from_slice(&data);
    out
}

fn field<'a>(j: &'a Json, key: &str) -> &'a Json {
    match j {
        Json::Obj(entries) => match entries.iter().find(|(k, _)| k == key) {
            Some((_, v)) => v,
            None => panic!("no key {}", key),
        },
        _ => panic!("not an object at {}", key),
    }
}

fn has(j: &Json, key: &str) -> bool {
    match j {
        Json::Obj(entries) => entries.iter().any(|(k, _)| k == key),
        _ => false,
    }
}

fn num(j: &Json) -> i128 {
    match j {
        Json::UInt(u) => *u as i128,
        Json::Int(i) => *i as i128,
        _ => panic!("not a number"),
    }
}

fn string(j: &Json) -> &str {
    match j {
        Json::Str(s) => s.as_str(),
        _ => panic!("not a string"),
    }
}

fn items(j: &Json) -> &Vec<Json> {
    match j {
        Json::Arr(v) => v,
        _ => panic!("not an array"),
    }
}

fn maxp(num_glyphs: u16) -> Vec<u8> {
    let mut t = Vec::new();
    t.extend_from_slice(&be32(0x0000_5000));
    t.extend_from_slice(&be16(num_glyphs));
    t
}

#[test]
fn short_data_does_not_open() {
    assert_eq!(check_open(&[0, 1, 0]).as_deref(), Some("An offset was out of bounds"));
}

#[test]
fn unknown_sfnt_version_does_not_open() {
    let font = build_font(0x1234_ABCD, &[]);
    assert_eq!(check_open(&font).as_deref(), Some("Invalid sfnt version 0x1234ABCD"));
    match font_info(&font) {
        Err(e) => assert_eq!(e, "Invalid sfnt version 0x1234ABCD"),
        Ok(_) => panic!("opened"),
    }
}

#[test]
fn known_sfnt_versions_open() {
    for v in [0x0001_0000u32, 0x7472_7565, 0x4F54_544F] {
        let font = build_font(v, &[(b"maxp", maxp(3))]);
        assert_eq!(check_open(&font), None);
    }
}

#[test]
fn font_info_lists_records() {
    let font = build_font(0x0001_0000, &[(b"maxp", maxp(3)), (b"head", vec![0; 54])]);
    let info = font_info(&font).unwrap();
    assert_eq!(info.num_tables, 2);
    assert_eq!(info.tables.len(), 2);
    assert_eq!(info.tables[0].tag, "head");
    assert_eq!(info.tables[0].offset, 12 + 32);
    assert_eq!(info.tables[0].length, 54);
    assert_eq!(info.tables[1].tag, "maxp");
    assert_eq!(info.tables[1].offset, 12 + 32 + 56);
    assert_eq!(info.tables[1].length, 6);
}

#[test]
fn font_table_data_finds_table_bytes() {
    let font = build_font(0x0001_0000, &[(b"maxp", maxp(7))]);
    let found = font_table_data(&font, b"maxp").unwrap().unwrap();
    assert_eq!(found, maxp(7));
    assert_eq!(font_table_data(&font, b"head").unwrap(), None);
    assert_eq!(font_table_data(&[1, 2], b"head").unwrap_err(), "An offset was out of bounds");
}

#[test]
fn loaded_table_is_listed_in_directory() {
    let font = build_font(0x0001_0000, &[(b"maxp", maxp(7)), (b"head", vec![9; 54])]);
    let info = font_info(&font).unwrap();
    for tag in [b"maxp", b"head"] {
        let t = load_table(&font, tag).unwrap();
        let rec = info.tables.iter().find(|r| r.tag.as_bytes() == &tag[..]).unwrap();
        let start = rec.offset as usize;
        assert_eq!(&t[..], &font[start..start + rec.length as usize]);
    }
}

#[test]
fn missing_table_error() {
    let font = build_font(0x0001_0000, &[(b"maxp", maxp(7))]);
    assert_eq!(load_table(&font, b"head").unwrap_err(), "the head table is missing");
}

#[test]
fn tag_display_escapes_unprintable_bytes() {
    assert_eq!(tag_string(&[b'O', b'S', b'/', b'2'], 0), "OS/2");
    assert_eq!(tag_string(&[0, b'a', 0x7F, b' '], 0), "{0x00}a{0x7F} ");
}

#[test]
fn table_directory_describes_records() {
    let font = build_font(0x0001_0000, &[(b"maxp", maxp(7))]);
    let d = table_directory::parse(&font).unwrap();
    assert_eq!(string(field(field(&d, "sfntVersion"), "value")), "0x00010000");
    assert_eq!(num(field(field(&d, "numTables"), "value")), 1);
    let recs = field(&d, "tableRecords");
    assert_eq!(num(field(recs, "offset")), 12);
    assert_eq!(num(field(recs, "length")), 16);
    let r0 = &items(field(recs, "value"))[0];
    assert_eq!(string(field(field(r0, "tag"), "value")), "maxp");
    assert_eq!(num(field(field(r0, "tag"), "offset")), 12);
    assert_eq!(num(field(field(r0, "offset"), "value")), 28);
    assert_eq!(num(field(field(r0, "length"), "value")), 6);
    assert_eq!(num(field(field(r0, "length"), "offset")), 24);
}

#[test]
fn dispatch_reports_tables_without_parser() {
    let font = build_font(0x0001_0000, &[(b"maxp", maxp(7))]);
    match parse_specific_table(&font, "GSUB") {
        Err(e) => assert_eq!(e, "Parsing for table 'GSUB' is not implemented yet."),
        Ok(_) => panic!("parsed"),
    }
    match parse_specific_table(&[0, 0], "maxp") {
        Err(e) => assert_eq!(e, "An offset was out of bounds"),
        Ok(_) => panic!("parsed"),
    }
}

#[test]
fn dispatch_describes_maxp() {
    let font = build_font(0x0001_0000, &[(b"maxp", maxp(7))]);
    let m = parse_specific_table(&font, "maxp").unwrap();
    assert_eq!(string(field(field(&m, "version"), "value")), "0.5");
    assert_eq!(num(field(field(&m, "numGlyphs"), "value")), 7);
    assert_eq!(num(field(field(&m, "numGlyphs"), "offset")), 4);
    assert!(!has(&m, "maxPoints"));
    let td = parse_specific_table(&font, "Table Directory").unwrap();
    assert!(has(&td, "tableRecords"));
}

#[test]
fn dispatch_reports_missing_table() {
    let font = build_font(0x0001_0000, &[(b"maxp", maxp(7))]);
    match parse_specific_table(&font, "head") {
        Err(e) => assert_eq!(e, "the head table is missing"),
        Ok(_) => panic!("parsed"),
    }
}
