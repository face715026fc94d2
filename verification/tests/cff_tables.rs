use font_inspect::cff;
use font_inspect::cff2;
use font_inspect::cff_common::{parse_charstrings, parse_dict, parse_fd_array};
use font_inspect::json::Json;
use font_inspect::parser::parse_specific_table;

fn build_font(tables: &[(&[u8; 4], Vec<u8>)]) -> Vec<u8> {
    let mut sorted: Vec<(&[u8; 4], Vec<u8>)> = tables.iter().map(|(t, d)| (*t, d.clone())).collect();
    sorted.sort_by(|a, b| a.0.cmp(b.0));
    let n = sorted.len();
    let mut out = Vec::new();
    out.extend_from_slice(&0x4F54_544Fu32.to_be_bytes());
    out.extend_from_slice(&(n as u16).to_be_bytes());
    out.extend_from_slice(&[0, 16, 0, 0, 0, 0]);
    let mut offset = 12 + 16 * n;
    let mut data = Vec::new();
    for (tag, bytes) in &sorted {
        out.extend_from_slice(&tag[..]);
        out.extend_from_slice(&[0, 0, 0, 0]);
        out.extend_from_slice(&(offset as u32).to_be_bytes());
        out.extend_from_slice(&(bytes.len() as u32).to_be_bytes());
        let mut padded = bytes.clone();
        while padded.len() % 4 != 0 {
            padded.push(0);
        }
        offset += padded.len();
        data.extend_from_slice(&padded);
    }
    out.extend_from_slice(&data);
    out
}

fn field<'a>(j: &'a Json, key: &str) -> &'a Json {
    match j {
        Json::Obj(entries) => match entries.iter().find(|(k, _)| k == key) {
            Some((_, v)) => v,
            None => panic!("no key {} in {:?}", key, entries.iter().map(|(k, _)| k.clone()).collect::<Vec<_>>()),
        },
        _ => panic!("not an object at {}", key),
    }
}

fn has(j: &Json, key: &str) -> bool {
    match j {
        Json::Obj(entries) => entries.iter().any(|(k, _)| k == key),
        _ => false,
    }
}

fn num(j: &Json) -> i128 {
    match j {
        Json::Int(v) => *v as i128,
        Json::UInt(v) => *v as i128,
        _ => panic!("not a number: {:?}", j),
    }
}

fn string(j: &Json) -> &str {
    match j {
        Json::Str(s) => s,
        _ => panic!("not a string: {:?}", j),
    }
}

fn items(j: &Json) -> &Vec<Json> {
    match j {
        Json::Arr(v) => v,
        _ => panic!("not an array: {:?}", j),
    }
}

fn int32(v: i32) -> Vec<u8> {
    let mut b = vec![29u8];
    b.extend_from_slice(&v.to_be_bytes());
    b
}

fn index1(objects: &[Vec<u8>]) -> Vec<u8> {
    let mut out = (objects.len() as u16).to_be_bytes().to_vec();
    if objects.is_empty() {
        return out;
    }
    out.push(1);
    let mut off = 1u8;
    out.push(off);
    for o in objects {
        off += o.len() as u8;
        out.push(off);
    }
    for o in objects {
        out.extend_from_slice(o);
    }
    out
}

fn top_dict(charstrings_at: i32, private_at: i32, private_len: u8) -> Vec<u8> {
    let mut t = vec![28u8, 0x01, 0x87, 0]; // Version = SID 391
    t.extend_from_slice(&[139, 139, 239, 239, 5]); // FontBBox 0 0 100 100
    t.extend(int32(charstrings_at));
    t.push(17);
    t.push(139 + private_len);
    t.extend(int32(private_at));
    t.push(18);
    t
}

/// A CFF table with one font: a Top DICT pointing to CharStrings and a
/// Private DICT with local subroutines.
fn cff_table() -> Vec<u8> {
    let header = vec![1u8, 0, 4, 1];
    let names = index1(&[b"Test".to_vec()]);
    let strings = index1(&[b"v1.0".to_vec()]);
    let gsubrs = index1(&[]);
    let top_index_len = index1(&[top_dict(0, 0, 0)]).len();
    let charstrings_at = header.len() + names.len() + top_index_len + strings.len() + gsubrs.len();
    let charstrings = index1(&[vec![1, 2], vec![14]]);
    let private_at = charstrings_at + charstrings.len();
    let mut private = vec![239u8, 20]; // defaultWidthX 100
    private.extend(int32(8));
    private.push(19); // Subrs, 8 bytes after the Private DICT's start
    assert_eq!(private.len(), 8);
    let subrs = index1(&[vec![11]]);
    let top_index = index1(&[top_dict(charstrings_at as i32, private_at as i32, 8)]);
    let mut t = header;
    t.extend(names);
    t.extend(top_index);
    t.extend(strings);
    t.extend(gsubrs);
    assert_eq!(t.len(), charstrings_at);
    t.extend(charstrings);
    t.extend(private);
    t.extend(subrs);
    t
}

#[test]
fn cff_table_is_described_from_header_to_private_dict() {
    let font = build_font(&[(b"CFF ", cff_table())]);
    let c = cff::parse(&font).unwrap();
    assert_eq!(num(field(field(&c, "majorVersion"), "value")), 1);
    assert_eq!(num(field(field(&c, "headerSize"), "value")), 4);
    let names = field(&c, "nameIndex");
    assert_eq!(num(field(names, "offset")), 4);
    let name_objs = items(field(field(field(names, "value"), "data"), "value"));
    assert_eq!(string(field(&name_objs[0], "value")), "Test");
    let tops = items(field(field(field(field(&c, "topDictIndex"), "value"), "data"), "value"));
    let top = &tops[0];
    assert_eq!(string(field(field(top, "Version"), "value")), "391 (v1.0)");
    assert_eq!(string(field(field(top, "Version"), "type")), "SID");
    let bbox = items(field(field(top, "FontBbox"), "value"));
    assert_eq!(bbox.len(), 4);
    assert_eq!(num(field(&bbox[2], "value")), 100);
    let cs = field(field(top, "CharstringsIndex"), "value");
    assert_eq!(num(field(field(cs, "count"), "value")), 2);
    let cs_objs = items(field(field(cs, "data"), "value"));
    assert_eq!(string(field(&cs_objs[0], "value")), "[2 bytes]");
    assert!(string(field(field(top, "PrivateDictOffset"), "value")).starts_with("8 "));
    assert_eq!(string(field(field(top, "PrivateDictOffset"), "type")), "number number");
    let private = field(field(top, "PrivateDict"), "value");
    assert_eq!(num(field(field(private, "DefaultWidthX"), "value")), 100);
    assert!(has(private, "localSubrsIndex"));
    let strings = items(field(field(field(field(&c, "stringIndex"), "value"), "data"), "value"));
    assert_eq!(string(field(&strings[0], "value")), "v1.0");
    assert_eq!(num(field(field(field(field(&c, "globalSubrsIndex"), "value"), "count"), "value")), 0);
    let via = parse_specific_table(&font, "CFF ").unwrap();
    assert_eq!(format!("{:?}", via), format!("{:?}", c));
}

#[test]
fn cff_table_errors() {
    let font = build_font(&[(b"CFF2", vec![2, 0, 5, 0, 0, 0, 0, 0, 0])]);
    assert_eq!(cff::parse(&font).unwrap_err(), "the CFF  table is missing");
}

#[test]
fn dict_entries_keep_operands_raw() {
    // A real operand (-2.25) and a two-byte operator: ItalicAngle.
    let d = [30u8, 0xe2, 0xa2, 0x5f, 12, 2, 247, 0, 13];
    let (entries, offsets) = parse_dict(&d, 10, false, &d, None);
    assert_eq!(entries.len(), 2);
    assert_eq!(entries[0].0, "ItalicAngle");
    assert_eq!(string(field(&entries[0].1, "value")), "-2.25");
    assert_eq!(num(field(&entries[0].1, "offset")), 10);
    assert_eq!(num(field(&entries[0].1, "length")), 6);
    assert_eq!(entries[1].0, "UniqueId");
    assert_eq!(num(field(&entries[1].1, "value")), 108);
    assert!(offsets.charstrings.is_none());
    let (cff2_entries, _) = parse_dict(&[139, 17], 0, true, &[], None);
    assert_eq!(cff2_entries[0].0, "CharStringIndexOffset");
}

#[test]
fn fd_array_holds_font_dicts() {
    // Two bytes of padding, then an INDEX of one font DICT with FontName SID 5.
    let t = [0u8, 0, 0, 1, 1, 1, 4, 144, 12, 38];
    let (fd, size) = parse_fd_array(2, &t, false, Some(0)).unwrap();
    assert_eq!(size, 8);
    let dicts = items(field(field(&fd, "data"), "value"));
    assert_eq!(string(field(field(&dicts[0], "FontName"), "value")), "5 (dollar)");
    let (raw, _) = parse_fd_array(2, &t, false, None).unwrap();
    let raw_dicts = items(field(field(&raw, "data"), "value"));
    assert_eq!(num(field(field(&raw_dicts[0], "FontName"), "value")), 5);
    assert!(parse_fd_array(20, &t, false, None).is_none());
}

#[test]
fn cff2_table_is_described() {
    // Header, a Top DICT with a CharStrings offset, an empty Global Subr INDEX, CharStrings.
    let top = {
        let mut t = int32(5 + 7 + 4);
        t.push(17);
        t.push(0);
        t
    };
    assert_eq!(top.len(), 7);
    let mut t = vec![2u8, 0, 5, 0, 7];
    t.extend(&top);
    t.extend(&[0, 0, 0, 0]);
    t.extend(&[0, 0, 0, 1, 1, 1, 2, 14]);
    let font = build_font(&[(b"CFF2", t)]);
    let c = cff2::parse(&font).unwrap();
    assert_eq!(num(field(field(&c, "majorVersion"), "value")), 2);
    assert_eq!(num(field(field(&c, "topDictSize"), "value")), 7);
    let top = field(field(&c, "TopDict"), "value");
    assert!(has(top, "CharStringIndexOffset"));
    let cs = field(field(top, "CharStringIndex"), "value");
    assert_eq!(string(field(field(cs, "count"), "type")), "uint32");
    assert_eq!(num(field(field(cs, "count"), "value")), 1);
    assert_eq!(num(field(field(&c, "GlobalSubrIndex"), "offset")), 12);
    let via = parse_specific_table(&font, "CFF2").unwrap();
    assert_eq!(format!("{:?}", via), format!("{:?}", c));
}

#[test]
fn index_objects_with_offsets_out_of_order_are_left_out() {
    // Three objects; the second's end offset lies before its start.
    let t = [0u8, 3, 1, 1, 3, 2, 4, 7, 8, 9];
    let (ix, size, count) = parse_charstrings(0, &t, false).unwrap();
    assert_eq!((size, count), (10, 3));
    let objs = items(field(field(&ix, "data"), "value"));
    assert_eq!(objs.len(), 2);
    assert_eq!(num(field(&objs[0], "offset")), 7);
    assert_eq!(num(field(&objs[0], "length")), 2);
    assert_eq!(num(field(&objs[1], "offset")), 8);
    assert_eq!(num(field(&objs[1], "length")), 2);
    // An offset size of 5 reads no offsets at all.
    let (_, size5, _) = parse_charstrings(0, &[0u8, 1, 5, 0, 0, 0, 0, 1, 0, 0, 0, 0, 2, 7], false).unwrap();
    assert_eq!(size5, 0);
}

#[test]
fn ros_entries_show_registry_and_ordering_strings() {
    let strings = index1(&[b"Adobe".to_vec(), b"Identity".to_vec()]);
    let d = [28u8, 0x01, 0x87, 28, 0x01, 0x88, 139, 12, 30, 28, 0x00, 0x02, 12, 38];
    let (entries, _) = parse_dict(&d, 100, false, &strings, Some(0));
    assert_eq!(entries[0].0, "Ros");
    assert_eq!(string(field(&entries[0].1, "value")), "391 (Adobe) 392 (Identity) 0");
    assert_eq!(string(field(&entries[0].1, "type")), "SID SID number");
    assert_eq!(entries[1].0, "FontName");
    assert_eq!(string(field(&entries[1].1, "value")), "2 (exclam)");
    let (unresolved, _) = parse_dict(&d, 100, false, &strings, None);
    assert_eq!(items(field(&unresolved[0].1, "value")).len(), 3);
}
