use vstd::prelude::*;
use crate::cff_common::{
    bytecode_items, cff_index_read, index_data_start, index_read_facts, index_read_view, insert_after_key,
    insert_entry_after, opt_pair_view, opt_triple_view, parse_charset, parse_charstrings, parse_fd_array,
    parse_fd_select, parse_font_dict, parse_index, read_cff_index, spec_font_dict, spec_parse_charset,
    spec_parse_charstrings, spec_parse_fd_array, spec_parse_fd_select, spec_parse_index, dict_offsets,
    entries_from, bytes_label_string, bytes_label, lossy_string, utf8_lossy_text,
};
use crate::font::{load_table, loaded_view, out_of_bounds, spec_load};
use crate::json::{
    jarr, jnum, jobj, jv_entries, jv_seq, new_arr, new_obj, parsed_field, parsed_view, push_entry, push_item,
    sfield, text, Json, JsonV,
};
use crate::reader::small_len;
use crate::text::opt_string;

verus! {

/// The message that reading a CFF table with read-fonts fails with, if it
/// fails.
pub uninterp spec fn cff_read_error(t: Seq<u8>) -> Option<Seq<char>>;

/// Reads a CFF table with read-fonts (`Cff::read`: the header, then the
/// Name, Top DICT, String and Global Subr INDEXes, each after the one
/// before); gives the error's text where that fails. The result is named
/// `cff_read_error`.
#[verifier::external_body]
fn read_cff_error(t: &[u8]) -> (r: Option<String>)
    ensures
        opt_string(r) == cff_read_error(t@),
{
    <read_fonts::tables::cff::Cff as read_fonts::FontRead>::read(read_fonts::FontData::new(t)).err().map(|e| e.to_string())
}

pub open spec fn cff_tag() -> Seq<u8> {
    seq![67u8, 70u8, 70u8, 32u8]
}

/// The four INDEXes that follow the header, in order.
pub open spec fn index_key(kind: int) -> Seq<char> {
    if kind == 0 { "nameIndex"@ } else if kind == 1 { "topDictIndex"@ } else if kind == 2 { "stringIndex"@ } else { "globalSubrsIndex"@ }
}

pub open spec fn index_item_type(kind: int) -> Seq<char> {
    if kind == 0 || kind == 2 { "String"@ } else if kind == 1 { "DICT"@ } else { "Bytecode"@ }
}

pub open spec fn charstrings_of(t: Seq<u8>, o: crate::cff_common::DictOffsets) -> Option<(JsonV, int, int)> {
    match o.charstrings { Some(off) => spec_parse_charstrings(t, off as int, false), None => None }
}

/// The number of glyphs, as the CharStrings INDEX counts them (0 without one).
pub open spec fn glyphs_of(t: Seq<u8>, o: crate::cff_common::DictOffsets) -> int {
    match charstrings_of(t, o) { Some(c) => c.2, None => 0 }
}

pub open spec fn with_charstrings(items: Seq<(Seq<char>, JsonV)>, t: Seq<u8>, o: crate::cff_common::DictOffsets) -> Seq<(Seq<char>, JsonV)> {
    match (charstrings_of(t, o), o.charstrings) {
        (Some(c), Some(off)) => insert_after_key(items, "CharstringsOffset"@, ("CharstringsIndex"@, sfield("INDEX"@, c.0, off as int, c.1))),
        _ => items,
    }
}

pub open spec fn with_charset(items: Seq<(Seq<char>, JsonV)>, t: Seq<u8>, o: crate::cff_common::DictOffsets) -> Seq<(Seq<char>, JsonV)> {
    let n = glyphs_of(t, o);
    let c = match o.charset { Some(off) => if 1 + 2 * n <= usize::MAX { spec_parse_charset(t, off as int, n) } else { None }, None => None };
    match (c, o.charset) {
        (Some(c), Some(off)) => insert_after_key(items, "CharsetOffset"@, ("Charset"@, sfield("DICT"@, c.0, off as int, c.1))),
        _ => items,
    }
}

pub open spec fn with_fd_array(items: Seq<(Seq<char>, JsonV)>, t: Seq<u8>, o: crate::cff_common::DictOffsets, strs: Option<usize>) -> Seq<(Seq<char>, JsonV)> {
    let c = match o.fd_array { Some(off) => spec_parse_fd_array(t, off as int, false, strs), None => None };
    match (c, o.fd_array) {
        (Some(c), Some(off)) => insert_after_key(items, "FdArrayOffset"@, ("FdArray"@, sfield("INDEX"@, c.0, off as int, c.1))),
        _ => items,
    }
}

pub open spec fn with_fd_select(items: Seq<(Seq<char>, JsonV)>, t: Seq<u8>, o: crate::cff_common::DictOffsets) -> Seq<(Seq<char>, JsonV)> {
    let c = match o.fd_select { Some(off) => spec_parse_fd_select(t, off as int, glyphs_of(t, o)), None => None };
    match (c, o.fd_select) {
        (Some(c), Some(off)) => insert_after_key(items, "FdSelectOffset"@, ("FdSelect"@, sfield("DICT"@, c.0, off as int, c.1))),
        _ => items,
    }
}

/// The described Top DICT at `start` (`len` bytes): its entries and Private
/// DICT, then the CharStrings INDEX, charset, FDArray and FDSelect that it
/// points to, each after the entry that points to it, where they can be
/// read (the charset and FDSelect for as many glyphs as CharStrings has).
pub open spec fn spec_top_dict(t: Seq<u8>, start: int, len: int, strs: Option<usize>) -> Seq<(Seq<char>, JsonV)> {
    let d = t.subrange(start, start + len);
    let o = dict_offsets(d, entries_from(d, 0, 0));
    with_fd_select(with_fd_array(with_charset(with_charstrings(spec_font_dict(t, start, len, false, strs), t, o), t, o), t, o, strs), t, o)
}

/// The described objects of one of the four INDEXes whose object data
/// starts at `base`: names and strings as text, Top DICTs with what they
/// point to, subroutines by their length.
pub open spec fn index_items(t: Seq<u8>, objs: Seq<(Option<usize>, Option<usize>)>, base: int, kind: int, strs: Option<usize>) -> Seq<JsonV>
    decreases objs.len(),
{
    if objs.len() == 0 {
        Seq::empty()
    } else {
        let rest = index_items(t, objs.drop_last(), base, kind, strs);
        match objs.last() {
            (Some(s), Some(l)) => {
                let at = base + s;
                rest.push(
                    if kind == 1 {
                        JsonV::Obj(spec_top_dict(t, at, l as int, strs))
                    } else if kind == 3 {
                        sfield("Bytecode"@, JsonV::Str(bytes_label(l as int)), at, l as int)
                    } else {
                        sfield("String"@, JsonV::Str(utf8_lossy_text(t.subrange(at, at + l))), at, l as int)
                    },
                )
            },
            _ => rest,
        }
    }
}

/// The INDEX of kind `kind` at `cur` of a CFF table, described as a field,
/// and its size.
pub open spec fn spec_index_field(t: Seq<u8>, cur: int, kind: int) -> Result<(JsonV, int), Seq<char>> {
    if cur > t.len() {
        Err(out_of_bounds())
    } else {
        match cff_index_read(t.subrange(cur, t.len() as int), false) {
            None => Err(out_of_bounds()),
            Some(ix) => {
                let size: int = match ix.2 { Some(v) => v as int, None => 0 };
                let base = cur + index_data_start(false, ix.0 as int, ix.1 as int);
                let strs = if kind == 1 && cur + size <= usize::MAX { Some((cur + size) as usize) } else { None };
                Ok((
                    sfield(
                        "INDEX"@,
                        spec_parse_index(t, cur, size, JsonV::Arr(index_items(t, ix.3, base, kind, strs)), index_item_type(kind), false),
                        cur,
                        size,
                    ),
                    size,
                ))
            },
        }
    }
}

/// The four INDEXes from the one of kind `kind` on, the first at `cur`.
pub open spec fn indexes_from(t: Seq<u8>, cur: int, kind: int) -> Result<Seq<(Seq<char>, JsonV)>, Seq<char>>
    decreases 4 - kind,
{
    if kind >= 4 {
        Ok(Seq::empty())
    } else {
        match spec_index_field(t, cur, kind) {
            Err(e) => Err(e),
            Ok((f, size)) => if cur + size > usize::MAX {
                Err(out_of_bounds())
            } else {
                match indexes_from(t, cur + size, kind + 1) {
                    Err(e) => Err(e),
                    Ok(rest) => Ok(seq![(index_key(kind), f)] + rest),
                }
            },
        }
    }
}

/// A CFF table described: its header fields, then its Name, Top DICT,
/// String and Global Subr INDEXes.
pub open spec fn spec_cff_table(t: Seq<u8>) -> Result<JsonV, Seq<char>> {
    if t.len() < 4 {
        Err(out_of_bounds())
    } else {
        let header = seq![
            ("majorVersion"@, sfield("uint8"@, JsonV::Num(t[0] as int), 0, 1)),
            ("minorVersion"@, sfield("uint8"@, JsonV::Num(t[1] as int), 1, 1)),
            ("headerSize"@, sfield("uint8"@, JsonV::Num(t[2] as int), 2, 1)),
            ("offsetSize"@, sfield("uint8"@, JsonV::Num(t[3] as int), 3, 1)),
        ];
        match indexes_from(t, t[2] as int, 0) {
            Err(e) => Err(e),
            Ok(rest) => Ok(JsonV::Obj(header + rest)),
        }
    }
}

/// A described CFF table starts with its four header bytes in the order they
/// are stored, byte `k` shown at offset `k`: the major version, the minor
/// version, the header size and the offset size.
pub proof fn cff_header_follows_the_record(t: Seq<u8>, k: int)
    requires
        spec_cff_table(t) is Ok,
        0 <= k < 4,
    ensures
        ({
            let e = spec_cff_table(t)->Ok_0->Obj_0;
            let names = seq!["majorVersion"@, "minorVersion"@, "headerSize"@, "offsetSize"@];
            e[k] == (names[k], sfield("uint8"@, JsonV::Num(t[k] as int), k, 1))
        }),
{
}

/// What describing the CFF table of a font gives: the table must be there
/// and readable by read-fonts.
pub open spec fn spec_parse(font: Seq<u8>) -> Result<JsonV, Seq<char>> {
    match spec_load(font, cff_tag()) {
        Err(e) => Err(e),
        Ok(t) => match cff_read_error(t) {
            Some(e) => Err(e),
            None => spec_cff_table(t),
        },
    }
}


pub open spec fn opt_usize_int(o: Option<usize>) -> Option<int> {
    match o {
        Some(v) => Some(v as int),
        None => None,
    }
}

fn glyph_count_of(t: &[u8], o: crate::cff_common::DictOffsets) -> (r: (Option<(Json, usize, usize)>, u32))
    requires
        small_len(t@.len() as int),
    ensures
        opt_triple_view(r.0) == charstrings_of(t@, o),
        r.1 as int == glyphs_of(t@, o),
{
    let cs = match o.charstrings {
        Some(off) => parse_charstrings(off, t, false),
        None => None,
    };
    proof {
        match o.charstrings {
            Some(off) => {
                lemma_charstrings_count(t@, off as int);
            },
            None => {},
        }
    }
    let n: u32 = match &cs {
        Some(c) => c.2 as u32,
        None => 0,
    };
    (cs, n)
}

proof fn lemma_charstrings_count(t: Seq<u8>, off: int)
    ensures
        spec_parse_charstrings(t, off, false) matches Some(c) ==> 0 <= c.2 <= u32::MAX,
{
}

fn add_charstrings(items: &mut Vec<(String, Json)>, cs: Option<(Json, usize, usize)>, t: &[u8], o: crate::cff_common::DictOffsets)
    requires
        opt_triple_view(cs) == charstrings_of(t@, o),
    ensures
        jv_entries(final(items)@) == with_charstrings(jv_entries(old(items)@), t@, o),
{
    match (cs, o.charstrings) {
        (Some(c), Some(off)) => {
            insert_entry_after(items, "CharstringsOffset", "CharstringsIndex", parsed_field("INDEX", c.0, off, c.1));
        },
        _ => {},
    }
}

fn add_charset(items: &mut Vec<(String, Json)>, n: u32, t: &[u8], o: crate::cff_common::DictOffsets)
    requires
        small_len(t@.len() as int),
        n as int == glyphs_of(t@, o),
    ensures
        jv_entries(final(items)@) == with_charset(jv_entries(old(items)@), t@, o),
{
    let c = match o.charset {
        Some(off) => if (n as u64) * 2 + 1 <= usize::MAX as u64 {
            parse_charset(off, t, n)
        } else {
            None
        },
        None => None,
    };
    match (c, o.charset) {
        (Some(c), Some(off)) => {
            insert_entry_after(items, "CharsetOffset", "Charset", parsed_field("DICT", c.0, off, c.1));
        },
        _ => {},
    }
}

fn add_fd_array(items: &mut Vec<(String, Json)>, t: &[u8], o: crate::cff_common::DictOffsets, strs: Option<usize>)
    requires
        small_len(t@.len() as int),
    ensures
        jv_entries(final(items)@) == with_fd_array(jv_entries(old(items)@), t@, o, strs),
{
    let c = match o.fd_array {
        Some(off) => parse_fd_array(off, t, false, strs),
        None => None,
    };
    match (c, o.fd_array) {
        (Some(c), Some(off)) => {
            insert_entry_after(items, "FdArrayOffset", "FdArray", parsed_field("INDEX", c.0, off, c.1));
        },
        _ => {},
    }
}

fn add_fd_select(items: &mut Vec<(String, Json)>, n: u32, t: &[u8], o: crate::cff_common::DictOffsets)
    requires
        small_len(t@.len() as int),
        n as int == glyphs_of(t@, o),
    ensures
        jv_entries(final(items)@) == with_fd_select(jv_entries(old(items)@), t@, o),
{
    let c = match o.fd_select {
        Some(off) => parse_fd_select(off, t, n),
        None => None,
    };
    match (c, o.fd_select) {
        (Some(c), Some(off)) => {
            insert_entry_after(items, "FdSelectOffset", "FdSelect", parsed_field("DICT", c.0, off, c.1));
        },
        _ => {},
    }
}

/// Describes the Top DICT at `start` (`len` bytes) of a CFF table, with what
/// it points to.
pub fn parse_top_dict(start: usize, len: usize, t: &[u8], strs: Option<usize>) -> (r: Vec<(String, Json)>)
    requires
        small_len(t@.len() as int),
        start + len <= t@.len(),
    ensures
        jv_entries(r@) == spec_top_dict(t@, start as int, len as int, strs),
{
    let (mut items, o) = parse_font_dict(start, len, t, false, strs);
    let (cs, n) = glyph_count_of(t, o);
    add_charstrings(&mut items, cs, t, o);
    add_charset(&mut items, n, t, o);
    add_fd_array(&mut items, t, o, strs);
    add_fd_select(&mut items, n, t, o);
    items
}

pub open spec fn field_view(r: Result<(Json, usize), String>) -> Result<(JsonV, int), Seq<char>> {
    match r {
        Ok((j, n)) => Ok((j.jv(), n as int)),
        Err(e) => Err(e@),
    }
}

/// Describes the INDEX of kind `kind` (0 to 3: names, Top DICTs, strings,
/// global subroutines) at `cur` of a CFF table, and gives its size.
pub fn parse_index_field(t: &[u8], cur: usize, kind: u8) -> (r: Result<(Json, usize), String>)
    requires
        small_len(t@.len() as int),
        kind < 4,
    ensures
        field_view(r) == spec_index_field(t@, cur as int, kind as int),
{
    if cur > t.len() {
        return Err(text("An offset was out of bounds"));
    }
    let sub = vstd::slice::slice_subrange(t, cur, t.len());
    let ix = match read_cff_index(sub, false) {
        Some(ix) => ix,
        None => return Err(text("An offset was out of bounds")),
    };
    let size: usize = match ix.size { Some(v) => v, None => 0 };
    assert((ix.count as int + 1) * (ix.off_size as int) <= 0x1_0000_0000 * 255) by (nonlinear_arith)
        requires
            ix.count as int + 1 <= 0x1_0000_0000,
    ;
    let data_start: u64 = 3 + (ix.count as u64 + 1) * (ix.off_size as u64);
    let ghost base = cur + index_data_start(false, ix.count as int, ix.off_size as int);
    let strs: Option<usize> = if kind == 1 { cur.checked_add(size) } else { None };
    let mut list = new_arr();
    let mut i: usize = 0;
    let n = ix.objects.len();
    while i < n
        invariant
            n == ix.objects@.len(),
            i <= n,
            kind < 4,
            index_read_facts(sub@, false, index_read_view(ix)),
            sub@.len() + cur == t@.len(),
            small_len(t@.len() as int),
            data_start == index_data_start(false, ix.count as int, ix.off_size as int),
            base == cur + data_start,
            jv_seq(list@) == index_items(t@, ix.objects@.take(i as int), base, kind as int, strs),
            strs == (if kind == 1 && cur + size <= usize::MAX { Some((cur + size) as usize) } else { None }),
        decreases n - i,
    {
        assert(ix.objects@.take(i + 1).drop_last() =~= ix.objects@.take(i as int));
        let o = ix.objects[i];
        match o {
            (Some(s), Some(l)) => {
                assert(ix.objects@[i as int].1 is Some);
                let at = cur + (data_start as usize) + s;
                if kind == 1 {
                    push_item(&mut list, jobj(parse_top_dict(at, l, t, strs)));
                } else if kind == 3 {
                    push_item(&mut list, parsed_field("Bytecode", Json::Str(bytes_label_string(l)), at, l));
                } else {
                    let b = vstd::slice::slice_subrange(t, at, at + l);
                    push_item(&mut list, parsed_field("String", Json::Str(lossy_string(b)), at, l));
                }
            },
            _ => {},
        }
        i = i + 1;
    }
    assert(ix.objects@.take(n as int) =~= ix.objects@);
    let ty = if kind == 0 || kind == 2 { "String" } else if kind == 1 { "DICT" } else { "Bytecode" };
    let index_json = parse_index(t, cur, size, jarr(list), ty, false);
    Ok((parsed_field("INDEX", index_json, cur, size), size))
}

/// Describes a CFF table: its header fields and its four INDEXes.
pub fn parse_table(t: &[u8]) -> (r: Result<Json, String>)
    requires
        small_len(t@.len() as int),
    ensures
        parsed_view(r) == spec_cff_table(t@),
{
    if t.len() < 4 {
        return Err(text("An offset was out of bounds"));
    }
    let mut o = new_obj();
    push_entry(&mut o, "majorVersion", parsed_field("uint8", jnum(t[0] as u64), 0, 1));
    push_entry(&mut o, "minorVersion", parsed_field("uint8", jnum(t[1] as u64), 1, 1));
    push_entry(&mut o, "headerSize", parsed_field("uint8", jnum(t[2] as u64), 2, 1));
    push_entry(&mut o, "offsetSize", parsed_field("uint8", jnum(t[3] as u64), 3, 1));
    let ghost header = jv_entries(o@);
    let mut cur: usize = t[2] as usize;
    let mut kind: u8 = 0;
    while kind < 4
        invariant
            kind <= 4,
            small_len(t@.len() as int),
            t@.len() >= 4,
            jv_entries(o@).len() >= 4,
            jv_entries(o@).take(4) == header,
            header == seq![
                ("majorVersion"@, sfield("uint8"@, JsonV::Num(t@[0] as int), 0, 1)),
                ("minorVersion"@, sfield("uint8"@, JsonV::Num(t@[1] as int), 1, 1)),
                ("headerSize"@, sfield("uint8"@, JsonV::Num(t@[2] as int), 2, 1)),
                ("offsetSize"@, sfield("uint8"@, JsonV::Num(t@[3] as int), 3, 1)),
            ],
            match indexes_from(t@, t@[2] as int, 0) {
                Err(e) => indexes_from(t@, cur as int, kind as int) == Err::<Seq<(Seq<char>, JsonV)>, Seq<char>>(e),
                Ok(all) => indexes_from(t@, cur as int, kind as int) matches Ok(rest)
                    && all == jv_entries(o@).skip(4) + rest,
            },
        decreases 4 - kind,
    {
        let (f, size) = match parse_index_field(t, cur, kind) {
            Err(e) => return Err(e),
            Ok(x) => x,
        };
        let next = match cur.checked_add(size) {
            Some(v) => v,
            None => return Err(text("An offset was out of bounds")),
        };
        let ghost before = jv_entries(o@);
        push_entry(&mut o, index_key_str(kind), f);
        assert(jv_entries(o@).take(4) =~= before.take(4));
        assert(jv_entries(o@).skip(4) =~= before.skip(4).push((index_key(kind as int), f.jv())));
        cur = next;
        kind = kind + 1;
        proof {
            match indexes_from(t@, t@[2] as int, 0) {
                Err(e) => {},
                Ok(all) => {
                    let rest = indexes_from(t@, cur as int, kind as int)->Ok_0;
                    assert(all =~= jv_entries(o@).skip(4) + rest);
                },
            }
        }
    }
    assert(jv_entries(o@) =~= header + jv_entries(o@).skip(4));
    Ok(jobj(o))
}

fn index_key_str(kind: u8) -> (r: &'static str)
    ensures
        r@ == index_key(kind as int),
{
    if kind == 0 { "nameIndex" } else if kind == 1 { "topDictIndex" } else if kind == 2 { "stringIndex" } else { "globalSubrsIndex" }
}

/// Describes the CFF table of a font: its header, its Name, Top DICT,
/// String and Global Subr INDEXes, and what the Top DICTs point to.
pub fn parse(font: &[u8]) -> (r: Result<Json, String>)
    requires
        small_len(font@.len() as int),
    ensures
        parsed_view(r) == spec_parse(font@),
{
    let tag: Vec<u8> = vec![67u8, 70u8, 70u8, 32u8];
    assert(tag@ =~= cff_tag());
    let t = match load_table(font, tag.as_slice()) {
        Err(e) => return Err(e),
        Ok(t) => t,
    };
    match read_cff_error(t.as_slice()) {
        Some(e) => return Err(e),
        None => {},
    }
    parse_table(t.as_slice())
}
} // verus!
