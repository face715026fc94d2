use font_inspect::fvar;
use font_inspect::json::Json;
use font_inspect::variations::{
    index_map_error_text, index_map_length, item_variation_store_length, parse_delta_set_index_map,
    parse_item_variation_store,
};

fn field<'a>(j: &'a Json, key: &str) -> &'a Json {
    match j {
        Json::Obj(entries) => match entries.iter().find(|(k, _)| k == key) {
            Some((_, v)) => v,
            None => panic!("no key {}", key),
        },
        _ => panic!("not an object at {}", key),
    }
}

fn has(j: &Json, key: &str) -> bool {
    match j {
        Json::Obj(entries) => entries.iter().any(|(k, _)| k == key),
        _ => false,
    }
}

fn num(j: &Json) -> i128 {
    match j {
        Json::UInt(u) => *u as i128,
        Json::Int(i) => *i as i128,
        _ => panic!("not a number"),
    }
}

fn string(j: &Json) -> &str {
    match j {
        Json::Str(s) => s.as_str(),
        _ => panic!("not a string"),
    }
}

fn items(j: &Json) -> &Vec<Json> {
    match j {
        Json::Arr(v) => v,
        _ => panic!("not an array"),
    }
}

fn vol(j: &Json) -> (i128, i128, i128) {
    (num(field(j, "value")), num(field(j, "offset")), num(field(j, "length")))
}

fn span(j: &Json) -> (i128, i128) {
    (num(field(j, "offset")), num(field(j, "length")))
}

fn store() -> Vec<u8> {
    let mut s = vec![0, 1, 0, 0, 0, 12, 0, 1, 0, 0, 0, 22];
    s.extend_from_slice(&[0, 1, 0, 1, 0, 0, 0x40, 0, 0x40, 0]);
    s.extend_from_slice(&[0, 2, 0, 1, 0, 2, 0, 0, 0, 0]);
    s.extend_from_slice(&[0xFF, 0xF6, 5, 0, 100, 0xFB]);
    s
}

#[test]
fn item_variation_store_is_described() {
    let s = store();
    let j = parse_item_variation_store(&s, 0).unwrap();
    assert_eq!(vol(field(&j, "format")), (1, 0, 2));
    assert_eq!(vol(field(&j, "variationRegionListOffset")), (12, 2, 4));
    assert_eq!(vol(field(&j, "itemVariationDataCount")), (1, 6, 2));
    assert_eq!(vol(&items(field(field(&j, "itemVariationDataOffsets"), "value"))[0]), (22, 8, 4));
    let rl = field(&j, "variationRegionList");
    assert_eq!(span(rl), (12, 10));
    let region = &items(field(field(field(rl, "value"), "variationRegions"), "value"))[0];
    let axis = &items(field(field(region, "regionAxes"), "value"))[0];
    assert!(matches!(field(field(axis, "peakCoord"), "value"), Json::F2Dot14(0x4000)));
    assert_eq!(span(field(axis, "peakCoord")), (18, 2));
    let data = field(&j, "itemVariationData");
    assert_eq!(span(data), (22, 16));
    let ivd = &items(field(data, "value"))[0];
    assert_eq!(vol(field(ivd, "itemCount")), (2, 22, 2));
    assert_eq!(string(field(field(ivd, "wordDeltaCount"), "summary")), "0x0001 (LONG_WORDS: false, count: 1)");
    let sets = field(ivd, "deltaSets");
    assert_eq!(span(sets), (32, 6));
    let s0 = &items(field(sets, "value"))[0];
    assert_eq!(string(field(s0, "name")), "Delta set 0");
    assert_eq!(span(s0), (32, 3));
    let d0 = field(field(s0, "value"), "deltaData");
    assert_eq!(string(field(d0, "type")), "(int16 | int8)[]");
    let deltas: Vec<(i128, i128, i128)> = items(field(d0, "value")).iter().map(vol).collect();
    assert_eq!(deltas, vec![(-10, 32, 2), (5, 34, 1)]);
    let s1 = &items(field(sets, "value"))[1];
    let d1: Vec<(i128, i128, i128)> = items(field(field(field(s1, "value"), "deltaData"), "value")).iter().map(vol).collect();
    assert_eq!(d1, vec![(100, 35, 2), (-5, 37, 1)]);
    for d in items(field(d0, "value")).iter().chain(items(field(field(field(s1, "value"), "deltaData"), "value")).iter()) {
        let (o, l) = span(d);
        assert!(o >= 32 && o + l <= 38);
    }
}

#[test]
fn store_length_covers_every_part() {
    assert_eq!(item_variation_store_length(&store()), 38);
    let mut s = store();
    s.extend_from_slice(&[0, 0]);
    assert_eq!(item_variation_store_length(&s), 38);
}

#[test]
fn store_errors() {
    let mut null_regions = store();
    null_regions[5] = 0;
    assert_eq!(parse_item_variation_store(&null_regions, 0).unwrap_err(), "An offset was unexpectedly null");
    let mut far = store();
    far[11] = 200;
    assert_eq!(parse_item_variation_store(&far, 0).unwrap_err(), "An offset was out of bounds");
}

#[test]
fn delta_set_index_maps() {
    let t = [9, 0, 0x11, 0, 2, 0, 1, 0, 2];
    assert_eq!(index_map_error_text(&t, 1), None);
    let m = parse_delta_set_index_map(&t, 1);
    assert_eq!(vol(field(&m, "format")), (0, 1, 1));
    assert_eq!(string(field(field(&m, "entryFormat"), "summary")), "0x11 (entry size: 2 bytes, inner index bits: 2)");
    assert_eq!(vol(field(&m, "mapCount")), (2, 3, 2));
    assert_eq!(span(field(&m, "mapData")), (5, 4));
    assert_eq!(index_map_length(&t, 1), 8);
    assert_eq!(index_map_error_text(&[2, 0], 0).as_deref(), Some("Invalid format '2'"));
    assert_eq!(index_map_error_text(&[1, 0, 0], 0).as_deref(), Some("An offset was out of bounds"));
}

fn fvar_table() -> Vec<u8> {
    let mut t = vec![0, 1, 0, 0, 0, 16, 0, 2, 0, 1, 0, 20, 0, 1, 0, 10];
    t.extend_from_slice(b"wght");
    t.extend_from_slice(&[0, 0x64, 0, 0, 0x01, 0x90, 0, 0, 0x03, 0x84, 0, 0, 0, 0, 1, 0]);
    t.extend_from_slice(&[0, 2, 0, 0, 0x02, 0xBC, 0, 0, 0xFF, 0xFF]);
    t
}

#[test]
fn font_variations_axes_and_instances() {
    let f = fvar::parse_table(&fvar_table()).unwrap();
    assert_eq!(vol(field(&f, "axisCount")), (1, 8, 2));
    let axis = &items(field(field(&f, "axes"), "value"))[0];
    assert_eq!(string(field(field(axis, "axisTag"), "value")), "wght");
    assert!(matches!(field(field(axis, "minValue"), "value"), Json::Fixed(0x0064_0000)));
    assert_eq!(span(field(axis, "maxValue")), (28, 4));
    assert_eq!(vol(field(axis, "axisNameID")), (256, 34, 2));
    assert!(!has(field(axis, "axisNameID"), "summary"));
    let inst = &items(field(field(&f, "instances"), "value"))[0];
    assert_eq!(string(field(field(inst, "subfamilyNameID"), "summary")), "2 (Font Subfamily name)");
    let c0 = &items(field(field(inst, "coordinates"), "value"))[0];
    assert_eq!(string(field(c0, "name")), "wght");
    assert!(matches!(field(c0, "value"), Json::Fixed(0x02BC_0000)));
    assert_eq!(span(c0), (40, 4));
    assert!(matches!(field(field(inst, "postScriptNameID"), "value"), Json::Null));
}

#[test]
fn font_variations_errors() {
    assert_eq!(fvar::parse_table(&[0; 8]).unwrap_err(), "An offset was out of bounds");
    let mut null = fvar_table();
    null[5] = 0;
    assert_eq!(fvar::parse_table(&null).unwrap_err(), "An offset was unexpectedly null");
    let short = fvar_table()[..40].to_vec();
    assert_eq!(fvar::parse_table(&short).unwrap_err(), "An offset was out of bounds");
}
