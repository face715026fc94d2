use vstd::prelude::*;
use crate::cff_common::{
    insert_after_key, insert_entry_after, opt_triple_view, parse_charstrings, parse_fd_array, parse_fd_select,
    parse_font_dict, spec_font_dict, spec_parse_charstrings, spec_parse_fd_array, spec_parse_fd_select,
    dict_offsets, entries_from, DictOffsets, spec_bytecode_index, parse_bytecode_index,
};
use crate::font::{load_table, out_of_bounds, spec_load};
use crate::json::{jnum, jobj, jv_entries, new_obj, parsed_field, parsed_view, push_entry, sfield, text, Json, JsonV};
use crate::reader::{be_u16, small_len, u16_at};
use crate::text::opt_string;
use crate::variations::{parse_item_variation_store, store_error, store_value};

verus! {

/// The message that reading a CFF2 table with read-fonts fails with, if it
/// fails.
pub uninterp spec fn cff2_read_error(t: Seq<u8>) -> Option<Seq<char>>;

/// Reads a CFF2 table with read-fonts (`Cff2::read`: the header, the Top
/// DICT and the Global Subr INDEX); gives the error's text where that
/// fails. The result is named `cff2_read_error`.
#[verifier::external_body]
fn read_cff2_error(t: &[u8]) -> (r: Option<String>)
    ensures
        opt_string(r) == cff2_read_error(t@),
{
    <read_fonts::tables::cff2::Cff2 as read_fonts::FontRead>::read(read_fonts::FontData::new(t)).err().map(|e| e.to_string())
}

pub open spec fn cff2_tag() -> Seq<u8> {
    seq![67u8, 70u8, 70u8, 50u8]
}

pub open spec fn charstrings_of(t: Seq<u8>, o: DictOffsets) -> Option<(JsonV, int, int)> {
    match o.charstrings { Some(off) => spec_parse_charstrings(t, off as int, true), None => None }
}

/// The number of glyphs, as the CharStrings INDEX counts them (0 without one).
pub open spec fn glyphs_of(t: Seq<u8>, o: DictOffsets) -> int {
    match charstrings_of(t, o) { Some(c) => c.2, None => 0 }
}

pub open spec fn with_charstrings(items: Seq<(Seq<char>, JsonV)>, t: Seq<u8>, o: DictOffsets) -> Seq<(Seq<char>, JsonV)> {
    match (charstrings_of(t, o), o.charstrings) {
        (Some(c), Some(off)) => insert_after_key(items, "CharStringIndexOffset"@, ("CharStringIndex"@, sfield("INDEX"@, c.0, off as int, c.1))),
        _ => items,
    }
}

pub open spec fn with_fd_array(items: Seq<(Seq<char>, JsonV)>, t: Seq<u8>, o: DictOffsets) -> Seq<(Seq<char>, JsonV)> {
    let c = match o.fd_array { Some(off) => spec_parse_fd_array(t, off as int, true, None), None => None };
    match (c, o.fd_array) {
        (Some(c), Some(off)) => insert_after_key(items, "FontDictIndexOffset"@, ("FontDictIndex"@, sfield("INDEX"@, c.0, off as int, c.1))),
        _ => items,
    }
}

pub open spec fn with_fd_select(items: Seq<(Seq<char>, JsonV)>, t: Seq<u8>, o: DictOffsets) -> Seq<(Seq<char>, JsonV)> {
    let c = match o.fd_select { Some(off) => spec_parse_fd_select(t, off as int, glyphs_of(t, o)), None => None };
    match (c, o.fd_select) {
        (Some(c), Some(off)) => insert_after_key(items, "FontDictSelectOffset"@, ("FontDictSelect"@, sfield("DICT"@, c.0, off as int, c.1))),
        _ => items,
    }
}

/// The item variation store at `off` of a CFF2 table (after its 16-bit
/// length), where it can be read.
pub open spec fn vstore_of(t: Seq<u8>, off: int) -> Option<JsonV> {
    if off + 2 > t.len() || t.len() - (off + 2) < 8 {
        None
    } else {
        let s = t.subrange(off + 2, t.len() as int);
        if store_error(s) is Some { None } else { Some(store_value(s, off + 2)) }
    }
}

pub open spec fn with_vstore(items: Seq<(Seq<char>, JsonV)>, t: Seq<u8>, o: DictOffsets) -> Seq<(Seq<char>, JsonV)> {
    match o.vstore {
        Some(off) => match vstore_of(t, off as int) {
            Some(v) => {
                let length = u16_at(t, off as int);
                insert_after_key(items, "VariationStoreOffset"@, (
                    "VariationStore"@,
                    sfield(
                        "VariationStore"@,
                        JsonV::Obj(seq![
                            ("length"@, sfield("uint16"@, JsonV::Num(length), off as int, 2)),
                            ("data"@, sfield("ItemVariationStore"@, v, off + 2, length)),
                        ]),
                        off as int,
                        length + 2,
                    ),
                ))
            },
            None => items,
        },
        None => items,
    }
}

/// The described Top DICT of a CFF2 table at `start` (`len` bytes): its
/// entries and Private DICT, then the CharString INDEX, Font DICT INDEX,
/// Font DICT Select and variation store that it points to, each after the
/// entry that points to it, where they can be read.
#[verifier::opaque]
pub open spec fn spec_top_dict(t: Seq<u8>, start: int, len: int) -> Seq<(Seq<char>, JsonV)> {
    let d = t.subrange(start, start + len);
    let o = dict_offsets(d, entries_from(d, 0, 0));
    with_vstore(with_fd_select(with_fd_array(with_charstrings(spec_font_dict(t, start, len, true, None), t, o), t, o), t, o), t, o)
}

/// A CFF2 table described: its header fields, its Top DICT and its Global
/// Subr INDEX.
pub open spec fn spec_cff2_table(t: Seq<u8>) -> Result<JsonV, Seq<char>> {
    if t.len() < 5 {
        Err(out_of_bounds())
    } else {
        let hdr = t[2] as int;
        let tdl = u16_at(t, 3);
        if hdr + tdl > t.len() {
            Err(out_of_bounds())
        } else {
            match spec_bytecode_index(t, hdr + tdl, true, true) {
                None => Err(out_of_bounds()),
                Some((g, gsize, _)) => Ok(JsonV::Obj(seq![
                    ("majorVersion"@, sfield("uint8"@, JsonV::Num(t[0] as int), 0, 1)),
                    ("minorVersion"@, sfield("uint8"@, JsonV::Num(t[1] as int), 1, 1)),
                    ("headerSize"@, sfield("uint8"@, JsonV::Num(hdr), 2, 1)),
                    ("topDictSize"@, sfield("uint16"@, JsonV::Num(tdl), 3, 2)),
                    ("TopDict"@, sfield("DICT"@, JsonV::Obj(spec_top_dict(t, hdr, tdl)), hdr, tdl)),
                    ("GlobalSubrIndex"@, sfield("INDEX"@, g, hdr + tdl, gsize)),
                ])),
            }
        }
    }
}

/// A described CFF2 table starts with its header in the order it is stored:
/// the major version at 0, the minor version at 1, the header size at 2 and
/// the Top DICT's size (16 bits) at 3; the Top DICT follows the header and
/// the Global Subr INDEX follows the Top DICT.
pub proof fn cff2_header_follows_the_record(t: Seq<u8>)
    requires
        spec_cff2_table(t) is Ok,
    ensures
        ({
            let e = spec_cff2_table(t)->Ok_0->Obj_0;
            let hdr = t[2] as int;
            let tdl = u16_at(t, 3);
            &&& e[0] == ("majorVersion"@, sfield("uint8"@, JsonV::Num(t[0] as int), 0, 1))
            &&& e[1] == ("minorVersion"@, sfield("uint8"@, JsonV::Num(t[1] as int), 1, 1))
            &&& e[2] == ("headerSize"@, sfield("uint8"@, JsonV::Num(hdr), 2, 1))
            &&& e[3] == ("topDictSize"@, sfield("uint16"@, JsonV::Num(tdl), 3, 2))
            &&& e[4].0 == "TopDict"@ && e[4].1->Obj_0[2].1 == JsonV::Num(hdr) && e[4].1->Obj_0[3].1 == JsonV::Num(tdl)
            &&& e[5].0 == "GlobalSubrIndex"@ && e[5].1->Obj_0[2].1 == JsonV::Num(hdr + tdl)
        }),
{
}

/// What describing the CFF2 table of a font gives: the table must be there
/// and readable by read-fonts.
pub open spec fn spec_parse(font: Seq<u8>) -> Result<JsonV, Seq<char>> {
    match spec_load(font, cff2_tag()) {
        Err(e) => Err(e),
        Ok(t) => match cff2_read_error(t) {
            Some(e) => Err(e),
            None => spec_cff2_table(t),
        },
    }
}

fn glyph_count_of(t: &[u8], o: DictOffsets) -> (r: (Option<(Json, usize, usize)>, u32))
    requires
        small_len(t@.len() as int),
    ensures
        opt_triple_view(r.0) == charstrings_of(t@, o),
        r.1 as int == glyphs_of(t@, o),
{
    let cs = match o.charstrings {
        Some(off) => parse_charstrings(off, t, true),
        None => None,
    };
    let n: u32 = match &cs {
        Some(c) => c.2 as u32,
        None => 0,
    };
    (cs, n)
}

fn add_charstrings(items: &mut Vec<(String, Json)>, cs: Option<(Json, usize, usize)>, t: &[u8], o: DictOffsets)
    requires
        opt_triple_view(cs) == charstrings_of(t@, o),
    ensures
        jv_entries(final(items)@) == with_charstrings(jv_entries(old(items)@), t@, o),
{
    match (cs, o.charstrings) {
        (Some(c), Some(off)) => {
            insert_entry_after(items, "CharStringIndexOffset", "CharStringIndex", parsed_field("INDEX", c.0, off, c.1));
        },
        _ => {},
    }
}

fn add_fd_array(items: &mut Vec<(String, Json)>, t: &[u8], o: DictOffsets)
    requires
        small_len(t@.len() as int),
    ensures
        jv_entries(final(items)@) == with_fd_array(jv_entries(old(items)@), t@, o),
{
    let c = match o.fd_array {
        Some(off) => parse_fd_array(off, t, true, None),
        None => None,
    };
    match (c, o.fd_array) {
        (Some(c), Some(off)) => {
            insert_entry_after(items, "FontDictIndexOffset", "FontDictIndex", parsed_field("INDEX", c.0, off, c.1));
        },
        _ => {},
    }
}

fn add_fd_select(items: &mut Vec<(String, Json)>, n: u32, t: &[u8], o: DictOffsets)
    requires
        small_len(t@.len() as int),
        n as int == glyphs_of(t@, o),
    ensures
        jv_entries(final(items)@) == with_fd_select(jv_entries(old(items)@), t@, o),
{
    let c = match o.fd_select {
        Some(off) => parse_fd_select(off, t, n),
        None => None,
    };
    match (c, o.fd_select) {
        (Some(c), Some(off)) => {
            insert_entry_after(items, "FontDictSelectOffset", "FontDictSelect", parsed_field("DICT", c.0, off, c.1));
        },
        _ => {},
    }
}

fn add_vstore(items: &mut Vec<(String, Json)>, t: &[u8], o: DictOffsets)
    requires
        small_len(t@.len() as int),
    ensures
        jv_entries(final(items)@) == with_vstore(jv_entries(old(items)@), t@, o),
{
    let off = match o.vstore {
        Some(off) => off,
        None => return,
    };
    if off > t.len() || t.len() - off < 2 || t.len() - (off + 2) < 8 {
        return;
    }
    let s = vstd::slice::slice_subrange(t, off + 2, t.len());
    let v = match parse_item_variation_store(s, off + 2) {
        Ok(v) => v,
        Err(_) => return,
    };
    let length = be_u16(t, off) as usize;
    let mut m = new_obj();
    push_entry(&mut m, "length", parsed_field("uint16", jnum(length as u64), off, 2));
    push_entry(&mut m, "data", parsed_field("ItemVariationStore", v, off + 2, length));
    let ghost mv = jv_entries(m@);
    assert(mv =~= seq![
        ("length"@, sfield("uint16"@, JsonV::Num(length as int), off as int, 2)),
        ("data"@, sfield("ItemVariationStore"@, vstore_of(t@, off as int)->Some_0, off + 2, length as int)),
    ]);
    insert_entry_after(items, "VariationStoreOffset", "VariationStore", parsed_field("VariationStore", jobj(m), off, length + 2));
}

/// Describes the Top DICT of a CFF2 table at `start` (`len` bytes), with
/// what it points to.
pub fn parse_top_dict(start: usize, len: usize, t: &[u8]) -> (r: Vec<(String, Json)>)
    requires
        small_len(t@.len() as int),
        start + len <= t@.len(),
    ensures
        jv_entries(r@) == spec_top_dict(t@, start as int, len as int),
{
    proof {
        reveal(spec_top_dict);
    }
    let (mut items, o) = parse_font_dict(start, len, t, true, None);
    let (cs, n) = glyph_count_of(t, o);
    add_charstrings(&mut items, cs, t, o);
    add_fd_array(&mut items, t, o);
    add_fd_select(&mut items, n, t, o);
    add_vstore(&mut items, t, o);
    items
}

/// Describes a CFF2 table: its header fields, its Top DICT and its Global
/// Subr INDEX.
pub fn parse_table(t: &[u8]) -> (r: Result<Json, String>)
    requires
        small_len(t@.len() as int),
    ensures
        parsed_view(r) == spec_cff2_table(t@),
{
    if t.len() < 5 {
        return Err(text("An offset was out of bounds"));
    }
    let hdr = t[2] as usize;
    let tdl = be_u16(t, 3) as usize;
    if hdr + tdl > t.len() {
        return Err(text("An offset was out of bounds"));
    }
    let (g, gsize) = match parse_bytecode_index(hdr + tdl, t, true, true) {
        None => return Err(text("An offset was out of bounds")),
        Some(x) => (x.0, x.1),
    };
    let top = parse_top_dict(hdr, tdl, t);
    let mut o = new_obj();
    push_entry(&mut o, "majorVersion", parsed_field("uint8", jnum(t[0] as u64), 0, 1));
    push_entry(&mut o, "minorVersion", parsed_field("uint8", jnum(t[1] as u64), 1, 1));
    push_entry(&mut o, "headerSize", parsed_field("uint8", jnum(hdr as u64), 2, 1));
    push_entry(&mut o, "topDictSize", parsed_field("uint16", jnum(tdl as u64), 3, 2));
    push_entry(&mut o, "TopDict", parsed_field("DICT", jobj(top), hdr, tdl));
    push_entry(&mut o, "GlobalSubrIndex", parsed_field("INDEX", g, hdr + tdl, gsize));
    assert(jv_entries(o@) =~= spec_cff2_table(t@)->Ok_0->Obj_0);
    Ok(jobj(o))
}

/// Describes the CFF2 table of a font.
pub fn parse(font: &[u8]) -> (r: Result<Json, String>)
    requires
        small_len(font@.len() as int),
    ensures
        parsed_view(r) == spec_parse(font@),
{
    let tag: Vec<u8> = vec![67u8, 70u8, 70u8, 50u8];
    assert(tag@ =~= cff2_tag());
    let t = match load_table(font, tag.as_slice()) {
        Err(e) => return Err(e),
        Ok(t) => t,
    };
    match read_cff2_error(t.as_slice()) {
        Some(e) => return Err(e),
        None => {},
    }
    parse_table(t.as_slice())
}

} // verus!
