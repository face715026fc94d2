use vstd::prelude::*;
use crate::json::{
    jarr, jnum, jobj, jv_entries, jv_seq, new_arr, new_obj, parsed_field, parsed_view, push_entry,
    push_item, sfield, text, Json, JsonV,
};
use crate::layout::{items_view, kind_value, layout_fields, read_layout, Cond, Item, Kind};
use crate::font::{load_table, out_of_bounds, spec_load};
use crate::reader::{be_u16, small_len, u16_at};
use crate::text::char_string;
use vstd::string::StringExecFns;

verus! {

/// The fixed fields of the PostScript table, in order.
pub open spec fn post_layout() -> Seq<(Seq<char>, Seq<char>, Kind, Cond)> {
    seq![
        ("version"@, "Version16Dot16"@, Kind::Version16Dot16, Cond::Always),
        ("italicAngle"@, "Fixed"@, Kind::FixedNum, Cond::Always),
        ("underlinePosition"@, "FWORD"@, Kind::I16, Cond::Always),
        ("underlineThickness"@, "FWORD"@, Kind::I16, Cond::Always),
        ("isFixedPitch"@, "uint32"@, Kind::U32, Cond::Always),
        ("minMemType42"@, "uint32"@, Kind::U32, Cond::Always),
        ("maxMemType42"@, "uint32"@, Kind::U32, Cond::Always),
        ("minMemType1"@, "uint32"@, Kind::U32, Cond::Always),
        ("maxMemType1"@, "uint32"@, Kind::U32, Cond::Always),
        ("numGlyphs"@, "uint16"@, Kind::U16, Cond::MajorIs(2)),
    ]
}

fn post_layout_items() -> (r: Vec<Item>)
    ensures
        items_view(r@) == post_layout(),
{
    let v: Vec<Item> = vec![
        Item { key: "version", ty: "Version16Dot16", kind: Kind::Version16Dot16, cond: Cond::Always },
        Item { key: "italicAngle", ty: "Fixed", kind: Kind::FixedNum, cond: Cond::Always },
        Item { key: "underlinePosition", ty: "FWORD", kind: Kind::I16, cond: Cond::Always },
        Item { key: "underlineThickness", ty: "FWORD", kind: Kind::I16, cond: Cond::Always },
        Item { key: "isFixedPitch", ty: "uint32", kind: Kind::U32, cond: Cond::Always },
        Item { key: "minMemType42", ty: "uint32", kind: Kind::U32, cond: Cond::Always },
        Item { key: "maxMemType42", ty: "uint32", kind: Kind::U32, cond: Cond::Always },
        Item { key: "minMemType1", ty: "uint32", kind: Kind::U32, cond: Cond::Always },
        Item { key: "maxMemType1", ty: "uint32", kind: Kind::U32, cond: Cond::Always },
        Item { key: "numGlyphs", ty: "uint16", kind: Kind::U16, cond: Cond::MajorIs(2) },
    ];
    assert(items_view(v@) =~= post_layout());
    v
}

/// Version 2 (or 2.5) of the table carries glyph names.
pub open spec fn is_v2(t: Seq<u8>) -> bool {
    u16_at(t, 0) == 2
}

/// The glyph count a version-2 table states.
pub open spec fn name_count(t: Seq<u8>) -> int {
    u16_at(t, 32)
}

/// The glyph name index is there: a version-2 table with a glyph count that
/// is not zero and whose index lies within the table.
pub open spec fn has_name_index(t: Seq<u8>) -> bool {
    is_v2(t) && t.len() >= 34 && name_count(t) > 0 && 34 + 2 * name_count(t) <= t.len()
}

/// String data is there: a version-2 table with bytes after the index.
pub open spec fn has_string_data(t: Seq<u8>) -> bool {
    is_v2(t) && t.len() >= 34 && 34 + 2 * name_count(t) < t.len()
}

pub open spec fn name_index_item(t: Seq<u8>, i: int) -> JsonV {
    sfield("uint16"@, JsonV::Num(u16_at(t, 34 + 2 * i)), 34 + 2 * i, 2)
}

/// The described glyph name index.
pub open spec fn name_index_field(t: Seq<u8>) -> JsonV {
    sfield(
        "uint16[]"@,
        JsonV::Arr(Seq::new(name_count(t) as nat, |i: int| name_index_item(t, i))),
        34,
        2 * name_count(t),
    )
}

pub open spec fn is_ascii(s: Seq<u8>) -> bool {
    forall|i: int| 0 <= i < s.len() ==> s[i] < 128
}

/// ASCII bytes as text.
pub open spec fn ascii_text(s: Seq<u8>) -> Seq<char> {
    s.map_values(|b: u8| b as char)
}

/// The Pascal strings from `pos` on, the next one shown at offset `off`: a
/// string whose bytes run past the table ends the list; one that is not
/// ASCII is skipped without moving the shown offset on.
pub open spec fn pstrings(t: Seq<u8>, pos: int, off: int) -> Seq<JsonV>
    decreases t.len() - pos,
{
    if pos < 0 || pos >= t.len() {
        seq![]
    } else {
        let n = t[pos] as int;
        if pos + n + 1 > t.len() {
            seq![]
        } else {
            let body = t.subrange(pos + 1, pos + 1 + n);
            if is_ascii(body) {
                seq![sfield("PString"@, JsonV::Str(ascii_text(body)), off, n + 1)]
                    + pstrings(t, pos + n + 1, off + n + 1)
            } else {
                pstrings(t, pos + n + 1, off)
            }
        }
    }
}

/// The shown offset after the Pascal strings from `pos` on.
pub open spec fn pstrings_end(t: Seq<u8>, pos: int, off: int) -> int
    decreases t.len() - pos,
{
    if pos < 0 || pos >= t.len() {
        off
    } else {
        let n = t[pos] as int;
        if pos + n + 1 > t.len() {
            off
        } else if is_ascii(t.subrange(pos + 1, pos + 1 + n)) {
            pstrings_end(t, pos + n + 1, off + n + 1)
        } else {
            pstrings_end(t, pos + n + 1, off)
        }
    }
}

/// The described string data, which follows the glyph name index.
pub open spec fn string_data_field(t: Seq<u8>) -> JsonV {
    let s = 34 + 2 * name_count(t);
    sfield("PString[]"@, JsonV::Arr(pstrings(t, s, s)), s, pstrings_end(t, s, s) - s)
}

/// The PostScript table, described: its fixed fields, then in version 2 the
/// glyph name index and the string data. Tables shorter than the fixed
/// fields are refused.
pub open spec fn spec_parse_table(t: Seq<u8>) -> Result<JsonV, Seq<char>> {
    if t.len() < 32 {
        Err(out_of_bounds())
    } else {
        Ok(
            JsonV::Obj(
                layout_fields(t, post_layout(), 0, 0) + (if has_name_index(t) {
                    seq![("glyphNameIndex"@, name_index_field(t))]
                } else {
                    seq![]
                }) + (if has_string_data(t) {
                    seq![("stringData"@, string_data_field(t))]
                } else {
                    seq![]
                }),
            ),
        )
    }
}

/// The fixed fields of the PostScript table stand in the order of the
/// OpenType record, under their own names, read at their offsets: the version
/// at 0, italicAngle at 4, underlinePosition and underlineThickness at 8 and
/// 10, isFixedPitch at 12 and the four memory fields from 16 to 28.
pub proof fn post_fields_follow_the_record(t: Seq<u8>)
    requires
        t.len() >= 32,
    ensures
        spec_parse_table(t) is Ok,
        ({
            let e = spec_parse_table(t)->Ok_0->Obj_0;
            &&& e.len() >= 9
            &&& e[0] == ("version"@, sfield("Version16Dot16"@, kind_value(t, 0, Kind::Version16Dot16), 0, 4))
            &&& e[1] == ("italicAngle"@, sfield("Fixed"@, kind_value(t, 4, Kind::FixedNum), 4, 4))
            &&& e[2] == ("underlinePosition"@, sfield("FWORD"@, kind_value(t, 8, Kind::I16), 8, 2))
            &&& e[3] == ("underlineThickness"@, sfield("FWORD"@, kind_value(t, 10, Kind::I16), 10, 2))
            &&& e[4] == ("isFixedPitch"@, sfield("uint32"@, kind_value(t, 12, Kind::U32), 12, 4))
            &&& e[5] == ("minMemType42"@, sfield("uint32"@, kind_value(t, 16, Kind::U32), 16, 4))
            &&& e[6] == ("maxMemType42"@, sfield("uint32"@, kind_value(t, 20, Kind::U32), 20, 4))
            &&& e[7] == ("minMemType1"@, sfield("uint32"@, kind_value(t, 24, Kind::U32), 24, 4))
            &&& e[8] == ("maxMemType1"@, sfield("uint32"@, kind_value(t, 28, Kind::U32), 28, 4))
        }),
{
    let l = post_layout();
    reveal_with_fuel(crate::layout::prefix_applies, 10);
    reveal_with_fuel(crate::layout::size_before, 10);
    assert(crate::layout::prefix_applies(t, l, 0, 9));
    assert(crate::layout::size_before(l, 0, 9) == 32);
    crate::layout::layout_fields_in_order(t, l, 0, 0, 9);
}

/// Describes the glyph name index of a version-2 table.
pub fn read_glyph_name_index(t: &[u8]) -> (r: Json)
    requires
        has_name_index(t@),
        small_len(t@.len() as int),
    ensures
        r.jv() == name_index_field(t@),
{
    let n = be_u16(t, 32) as usize;
    let ghost want = Seq::new(n as nat, |i: int| name_index_item(t@, i));
    let mut values = new_arr();
    let mut i: usize = 0;
    while i < n
        invariant
            i <= n,
            n == name_count(t@),
            34 + 2 * n <= t@.len(),
            small_len(t@.len() as int),
            want == Seq::new(n as nat, |i: int| name_index_item(t@, i)),
            jv_seq(values@) == want.take(i as int),
        decreases n - i,
    {
        let off = 34 + 2 * i;
        push_item(&mut values, parsed_field("uint16", jnum(be_u16(t, off) as u64), off, 2));
        assert(want.take(i + 1) =~= want.take(i as int).push(want[i as int]));
        i = i + 1;
    }
    assert(want.take(n as int) =~= want);
    parsed_field("uint16[]", jarr(values), 34, 2 * n)
}

fn ascii_string(t: &[u8], start: usize, end: usize) -> (r: String)
    requires
        start <= end <= t@.len(),
        is_ascii(t@.subrange(start as int, end as int)),
    ensures
        r@ == ascii_text(t@.subrange(start as int, end as int)),
{
    let ghost body = t@.subrange(start as int, end as int);
    let mut s = text("");
    proof {
        reveal_strlit("");
    }
    let mut i = start;
    while i < end
        invariant
            start <= i <= end <= t@.len(),
            body == t@.subrange(start as int, end as int),
            is_ascii(body),
            s@ == ascii_text(body.take(i - start)),
        decreases end - i,
    {
        assert(t[i as int] == body[i - start]);
        let c = char_string(t[i] as char);
        s.append(c.as_str());
        assert(ascii_text(body.take(i + 1 - start)) =~= ascii_text(body.take(i - start)).push(t[i as int] as char));
        i = i + 1;
    }
    assert(body.take(end - start) =~= body);
    s
}

fn all_ascii(t: &[u8], start: usize, end: usize) -> (r: bool)
    requires
        start <= end <= t@.len(),
    ensures
        r == is_ascii(t@.subrange(start as int, end as int)),
{
    let mut i = start;
    while i < end
        invariant
            start <= i <= end <= t@.len(),
            forall|k: int| start <= k < i ==> t@[k] < 128,
        decreases end - i,
    {
        if t[i] >= 128 {
            assert(t@.subrange(start as int, end as int)[i - start] >= 128);
            return false;
        }
        i = i + 1;
    }
    assert forall|k: int| 0 <= k < end - start implies t@.subrange(start as int, end as int)[k] < 128 by {
        assert(t@[start + k] < 128);
    }
    true
}

/// Describes the Pascal strings of the string data, which starts at `start`.
pub fn read_string_data(t: &[u8], start: usize) -> (r: Json)
    requires
        start <= t@.len(),
        small_len(t@.len() as int),
    ensures
        r.jv() == sfield(
            "PString[]"@,
            JsonV::Arr(pstrings(t@, start as int, start as int)),
            start as int,
            pstrings_end(t@, start as int, start as int) - start,
        ),
{
    let len = t.len();
    let mut values = new_arr();
    let mut pos = start;
    let mut off = start;
    while pos < len && pos + (t[pos] as usize) + 1 <= len
        invariant
            start <= off <= pos <= len,
            len == t@.len(),
            small_len(t@.len() as int),
            jv_seq(values@) + pstrings(t@, pos as int, off as int) == pstrings(t@, start as int, start as int),
            pstrings_end(t@, pos as int, off as int) == pstrings_end(t@, start as int, start as int),
        decreases len - pos,
    {
        let n = t[pos] as usize;
        let ghost prev = jv_seq(values@);
        if all_ascii(t, pos + 1, pos + 1 + n) {
            let s = ascii_string(t, pos + 1, pos + 1 + n);
            push_item(&mut values, parsed_field("PString", Json::Str(s), off, n + 1));
            assert(jv_seq(values@) + pstrings(t@, pos + n + 1, off + n + 1) =~= prev + pstrings(t@, pos as int, off as int));
            off = off + n + 1;
        } else {
            assert(pstrings(t@, pos + n + 1, off as int) == pstrings(t@, pos as int, off as int));
        }
        pos = pos + n + 1;
    }
    assert(pstrings(t@, pos as int, off as int) =~= Seq::<JsonV>::empty());
    assert(jv_seq(values@) =~= pstrings(t@, start as int, start as int));
    parsed_field("PString[]", jarr(values), start, off - start)
}

/// The PostScript table, described.
pub fn parse_table(t: &[u8]) -> (r: Result<Json, String>)
    requires
        small_len(t@.len() as int),
    ensures
        parsed_view(r) == spec_parse_table(t@),
{
    if t.len() < 32 {
        return Err(text("An offset was out of bounds"));
    }
    let items = post_layout_items();
    let mut o = new_obj();
    read_layout(t, &items, 0, &mut o);
    let ghost fixed = jv_entries(o@);
    assert(fixed =~= layout_fields(t@, post_layout(), 0, 0));
    let v2 = be_u16(t, 0) == 2 && t.len() >= 34;
    if v2 {
        let n = be_u16(t, 32) as usize;
        if n > 0 && 34 + 2 * n <= t.len() {
            push_entry(&mut o, "glyphNameIndex", read_glyph_name_index(t));
        }
        if 34 + 2 * n < t.len() {
            push_entry(&mut o, "stringData", read_string_data(t, 34 + 2 * n));
        }
    }
    assert(jv_entries(o@) =~= spec_parse_table(t@)->Ok_0->Obj_0);
    Ok(jobj(o))
}

pub open spec fn table_tag() -> Seq<u8> {
    seq![112u8, 111u8, 115u8, 116u8]
}

/// The `post` table of a font, described.
pub open spec fn spec_parse(font: Seq<u8>) -> Result<JsonV, Seq<char>> {
    match spec_load(font, table_tag()) {
        Err(e) => Err(e),
        Ok(t) => spec_parse_table(t),
    }
}

/// Describes the `post` table of a font.
pub fn parse(font: &[u8]) -> (r: Result<Json, String>)
    requires
        small_len(font@.len() as int),
    ensures
        parsed_view(r) == spec_parse(font@),
{
    let tag: Vec<u8> = vec![112u8, 111u8, 115u8, 116u8];
    assert(tag@ =~= table_tag());
    match load_table(font, tag.as_slice()) {
        Err(e) => Err(e),
        Ok(t) => parse_table(t.as_slice()),
    }
}

} // verus!
