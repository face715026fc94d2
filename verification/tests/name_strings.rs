use font_inspect::json::Json;
use font_inspect::name::{
    decode_name_string, decode_name_string_fallback, decode_with_encoding, encoding_label,
    language_label, name_id_label, parse_table, platform_label, read_name_string,
    should_decode_as_utf16be, windows_language_label, NameCodec,
};

fn field<'a>(j: &'a Json, key: &str) -> &'a Json {
    match j {
        Json::Obj(entries) => match entries.iter().find(|(k, _)| k == key) {
            Some((_, v)) => v,
            None => panic!("no key {}", key),
        },
        _ => panic!("not an object at {}", key),
    }
}

fn num(j: &Json) -> i128 {
    match j {
        Json::UInt(u) => *u as i128,
        Json::Int(i) => *i as i128,
        _ => panic!("not a number"),
    }
}

fn string(j: &Json) -> &str {
    match j {
        Json::Str(s) => s.as_str(),
        _ => panic!("not a string"),
    }
}

fn items(j: &Json) -> &Vec<Json> {
    match j {
        Json::Arr(v) => v,
        _ => panic!("not an array"),
    }
}

#[test]
fn utf16_heuristic() {
    assert!(should_decode_as_utf16be(0, 0, &[0, 0x41]));
    assert!(should_decode_as_utf16be(3, 10, &[0x41, 0x41]));
    assert!(!should_decode_as_utf16be(0, 0, &[0, 0x41, 0]));
    assert!(!should_decode_as_utf16be(0, 0, &[0]));
    assert!(should_decode_as_utf16be(3, 5, &[0, 0x41, 0x42, 0x43]));
    assert!(!should_decode_as_utf16be(3, 5, &[0x41, 0x42, 0x43, 0x44]));
    assert!(should_decode_as_utf16be(1, 0, &[0, 0x41, 0x42, 0, 0x43, 0x44]) == false);
    assert!(should_decode_as_utf16be(1, 0, &[0, 0x41, 0, 0, 0x43, 0x44]));
}

#[test]
fn legacy_encodings_decode() {
    assert_eq!(decode_with_encoding(NameCodec::Macintosh, &[0x8E]), "é");
    assert_eq!(decode_with_encoding(NameCodec::Windows1252, &[0x80]), "€");
    assert_eq!(decode_with_encoding(NameCodec::Utf16Be, &[0xD8, 0x3D, 0xDE, 0x00]), "😀");
    assert_eq!(decode_with_encoding(NameCodec::ShiftJis, &[0x82, 0xA0]), "あ");
    assert_eq!(decode_with_encoding(NameCodec::Windows1252, b"AB"), "AB");
}

#[test]
fn name_record_text_from_read_fonts() {
    assert_eq!(read_name_string(3, 1, &[0, 0x41, 0, 0x42]), "AB");
    assert_eq!(read_name_string(1, 0, &[0x8E]), "é");
    assert_eq!(read_name_string(3, 3, b"AB"), "");
}

#[test]
fn fallback_decoding() {
    assert_eq!(decode_name_string_fallback(3, 5, &[0, 0x41]), "A");
    assert_eq!(decode_name_string_fallback(7, 7, &[0x80]), "€");
    assert_eq!(decode_name_string_fallback(3, 2, &[0x82, 0xA0]), "あ");
}

#[test]
fn name_string_decoding() {
    let sd = [0, 0x41, 0, 0x42, 0x82, 0xA0];
    assert_eq!(decode_name_string(3, 1, &sd, 0, 4), "AB");
    assert_eq!(decode_name_string(3, 2, &sd, 4, 2), "あ");
    assert_eq!(decode_name_string(3, 1, &sd, 4, 4), "<An offset was out of bounds>");
    assert_eq!(decode_name_string(3, 3, &sd, 2, 0), "");
}

#[test]
fn id_labels() {
    assert_eq!(name_id_label(1).as_deref(), Some("1 (Font Family name)"));
    assert_eq!(name_id_label(25).as_deref(), Some("25 (Variations PostScript name prefix)"));
    assert_eq!(name_id_label(300), None);
    assert_eq!(platform_label(3).as_deref(), Some("3 (Windows)"));
    assert_eq!(platform_label(2), None);
    assert_eq!(encoding_label(1, 0).as_deref(), Some("0 (Roman)"));
    assert_eq!(encoding_label(3, 10).as_deref(), Some("10 (Unicode full repertoire)"));
    assert_eq!(encoding_label(3, 11), None);
    assert_eq!(windows_language_label(0x0409), Some("English (United States)"));
    assert_eq!(windows_language_label(0x0001), None);
}

#[test]
fn language_labels() {
    let tags = vec!["en-Latn".to_string()];
    assert_eq!(language_label(3, 0x0409, &tags).as_deref(), Some("0x0409 (English (United States))"));
    assert_eq!(language_label(0, 0x0409, &tags), None);
    assert_eq!(language_label(3, 0x8000, &tags).as_deref(), Some("0x8000 (Language tag 0: en-Latn)"));
    assert_eq!(language_label(3, 0x8001, &tags).as_deref(), Some("0x8001 (Language tag 1)"));
}

#[test]
fn naming_table_records() {
    let mut t = vec![0, 0, 0, 1, 0, 18];
    t.extend_from_slice(&[0, 3, 0, 1, 0x04, 0x09, 0, 1, 0, 4, 0, 0]);
    t.extend_from_slice(&[0, 0x41, 0, 0x42]);
    let n = parse_table(&t).unwrap();
    assert_eq!(num(field(field(&n, "count"), "value")), 1);
    assert_eq!(num(field(field(&n, "storageOffset"), "value")), 18);
    let r = &items(field(field(&n, "nameRecord"), "value"))[0];
    assert_eq!(string(field(field(r, "platformID"), "summary")), "3 (Windows)");
    assert_eq!(string(field(field(r, "encodingID"), "summary")), "1 (Unicode BMP)");
    assert_eq!(string(field(field(r, "languageID"), "summary")), "0x0409 (English (United States))");
    assert_eq!(string(field(field(r, "nameID"), "summary")), "1 (Font Family name)");
    let s = field(r, "string");
    assert_eq!(string(field(s, "value")), "AB");
    assert_eq!(num(field(s, "offset")), 18);
    assert_eq!(num(field(s, "length")), 4);
}

#[test]
fn naming_table_too_short() {
    assert_eq!(parse_table(&[0, 0, 0]).unwrap_err(), "An offset was out of bounds");
}
