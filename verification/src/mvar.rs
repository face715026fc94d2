use vstd::prelude::*;
use vstd::slice::slice_subrange;
use crate::json::{
    jarr, jnum, jobj, jv_entries, jv_seq, new_arr, new_obj, parsed_field, parsed_field_wide,
    parsed_view, push_entry, push_item, sfield, text, Json, JsonV,
};
use crate::font::{load_table, out_of_bounds, spec_load, tag_string, tag_text};
use crate::reader::{be_u16, small_len, u16_at};
use crate::variations::{
    item_variation_store_length, parse_item_variation_store, store_error, store_length, store_value,
};

verus! {

/// The step between value records as shown: the stated record size, but
/// at least the eight bytes a record takes.
pub open spec fn record_step(t: Seq<u8>) -> int {
    if u16_at(t, 6) > 8 { u16_at(t, 6) } else { 8 }
}

/// The number of value records read: all, or none where they run past the table.
pub open spec fn records_read(t: Seq<u8>) -> int {
    if 12 + 8 * u16_at(t, 8) <= t.len() { u16_at(t, 8) } else { 0 }
}

/// Value record `i` (read at its eight-byte slot), shown at `off`.
pub open spec fn value_record(t: Seq<u8>, i: int, off: int) -> JsonV {
    let p = 12 + 8 * i;
    JsonV::Obj(
        seq![
            ("valueTag"@, sfield("Tag"@, JsonV::Str(tag_text(t.subrange(p, p + 4))), off, 4)),
            ("deltaSetOuterIndex"@, sfield("uint16"@, JsonV::Num(u16_at(t, p + 4)), off + 4, 2)),
            ("deltaSetInnerIndex"@, sfield("uint16"@, JsonV::Num(u16_at(t, p + 6)), off + 6, 2)),
        ],
    )
}

/// A value record shows its tag at 0, its outer index at 4 and its inner
/// index at 6, each read at that offset of the record's slot.
pub proof fn value_record_fields_read_their_bytes(t: Seq<u8>, i: int, off: int)
    ensures
        ({
            let p = 12 + 8 * i;
            value_record(t, i, off)->Obj_0 == seq![
                ("valueTag"@, sfield("Tag"@, JsonV::Str(tag_text(t.subrange(p, p + 4))), off, 4)),
                ("deltaSetOuterIndex"@, sfield("uint16"@, JsonV::Num(u16_at(t, p + 4)), off + 4, 2)),
                ("deltaSetInnerIndex"@, sfield("uint16"@, JsonV::Num(u16_at(t, p + 6)), off + 6, 2)),
            ]
        }),
{
}

/// Why the metrics variations table cannot be described, if it cannot: it
/// is shorter than its header, or its variation store cannot be read.
pub open spec fn mvar_error(t: Seq<u8>) -> Option<Seq<char>> {
    let so = u16_at(t, 10);
    if t.len() < 12 {
        Some(out_of_bounds())
    } else if so == 0 {
        None
    } else if so + 8 > t.len() {
        Some(out_of_bounds())
    } else {
        store_error(t.subrange(so, t.len() as int))
    }
}

/// The metrics variations table, described: its header, its value records
/// (shown at steps of the stated record size), and its variation store.
pub open spec fn spec_parse_table(t: Seq<u8>) -> Result<JsonV, Seq<char>> {
    match mvar_error(t) {
        Some(e) => Err(e),
        None => {
            let so = u16_at(t, 10);
            let step = record_step(t);
            let head = seq![
                ("majorVersion"@, sfield("uint16"@, JsonV::Num(u16_at(t, 0)), 0, 2)),
                ("minorVersion"@, sfield("uint16"@, JsonV::Num(u16_at(t, 2)), 2, 2)),
                ("reserved"@, sfield("uint16"@, JsonV::Num(u16_at(t, 4)), 4, 2)),
                ("valueRecordSize"@, sfield("uint16"@, JsonV::Num(u16_at(t, 6)), 6, 2)),
                ("valueRecordCount"@, sfield("uint16"@, JsonV::Num(u16_at(t, 8)), 8, 2)),
                ("itemVariationStoreOffset"@, sfield("Offset16"@, JsonV::Num(so), 10, 2)),
                (
                    "valueRecords"@,
                    sfield(
                        "ValueRecord[]"@,
                        JsonV::Arr(Seq::new(records_read(t) as nat, |i: int| value_record(t, i, 12 + i * step))),
                        12,
                        u16_at(t, 8) * u16_at(t, 6),
                    ),
                ),
            ];
            let store: Seq<(Seq<char>, JsonV)> = if so == 0 {
                seq![]
            } else {
                let s = t.subrange(so, t.len() as int);
                seq![("itemVariationStore"@, sfield("ItemVariationStore"@, store_value(s, so), so, store_length(s)))]
            };
            Ok(JsonV::Obj(head + store))
        },
    }
}

/// Describes value record `i`, shown at `off`.
pub fn parse_value_record(t: &[u8], i: usize, off: u64) -> (r: Json)
    requires
        12 + 8 * i + 8 <= t@.len(),
        small_len(t@.len() as int),
        off <= 0x1_0000_0000_0000,
    ensures
        r.jv() == value_record(t@, i as int, off as int),
{
    let p = 12 + 8 * i;
    let mut o = new_obj();
    push_entry(&mut o, "valueTag", parsed_field_wide("Tag", Json::Str(tag_string(t, p)), off, 4));
    push_entry(&mut o, "deltaSetOuterIndex", parsed_field_wide("uint16", jnum(be_u16(t, p + 4) as u64), off + 4, 2));
    push_entry(&mut o, "deltaSetInnerIndex", parsed_field_wide("uint16", jnum(be_u16(t, p + 6) as u64), off + 6, 2));
    assert(jv_entries(o@) =~= value_record(t@, i as int, off as int)->Obj_0);
    jobj(o)
}

/// The metrics variations table, described.
pub fn parse_table(t: &[u8]) -> (r: Result<Json, String>)
    requires
        small_len(t@.len() as int),
    ensures
        parsed_view(r) == spec_parse_table(t@),
{
    if t.len() < 12 {
        return Err(text("An offset was out of bounds"));
    }
    let so = be_u16(t, 10) as usize;
    let mut store: Option<(Json, u64)> = None;
    if so != 0 {
        if so > t.len() || t.len() - so < 8 {
            return Err(text("An offset was out of bounds"));
        }
        let s = slice_subrange(t, so, t.len());
        match parse_item_variation_store(s, so) {
            Err(e) => return Err(e),
            Ok(j) => {
                store = Some((j, item_variation_store_length(s)));
            },
        }
    }
    let vrs = be_u16(t, 6) as u64;
    let vrc = be_u16(t, 8) as usize;
    let step: u64 = if vrs > 8 { vrs } else { 8 };
    let n: usize = if 12 + 8 * vrc <= t.len() { vrc } else { 0 };
    let ghost want = Seq::new(n as nat, |i: int| value_record(t@, i, 12 + i * step));
    let mut records = new_arr();
    let mut i: usize = 0;
    while i < n
        invariant
            i <= n,
            n <= 0xFFFF,
            12 + 8 * n <= t@.len(),
            step <= 0xFFFF,
            small_len(t@.len() as int),
            want == Seq::new(n as nat, |i: int| value_record(t@, i, 12 + i * step)),
            jv_seq(records@) == want.take(i as int),
        decreases n - i,
    {
        assert(i * step <= 0xFFFF * 0xFFFF) by (nonlinear_arith)
            requires i <= 0xFFFF, step <= 0xFFFF;
        push_item(&mut records, parse_value_record(t, i, 12 + (i as u64) * step));
        assert(want.take(i + 1) =~= want.take(i as int).push(want[i as int]));
        i = i + 1;
    }
    assert(want.take(n as int) =~= want);
    assert((vrc as u64) * vrs <= 0xFFFF * 0xFFFF) by (nonlinear_arith)
        requires vrc <= 0xFFFF, vrs <= 0xFFFF;
    let mut o = new_obj();
    push_entry(&mut o, "majorVersion", parsed_field("uint16", jnum(be_u16(t, 0) as u64), 0, 2));
    push_entry(&mut o, "minorVersion", parsed_field("uint16", jnum(be_u16(t, 2) as u64), 2, 2));
    push_entry(&mut o, "reserved", parsed_field("uint16", jnum(be_u16(t, 4) as u64), 4, 2));
    push_entry(&mut o, "valueRecordSize", parsed_field("uint16", jnum(vrs), 6, 2));
    push_entry(&mut o, "valueRecordCount", parsed_field("uint16", jnum(vrc as u64), 8, 2));
    push_entry(&mut o, "itemVariationStoreOffset", parsed_field("Offset16", jnum(so as u64), 10, 2));
    push_entry(&mut o, "valueRecords", parsed_field_wide("ValueRecord[]", jarr(records), 12, (vrc as u64) * vrs));
    match store {
        Some((j, len)) => {
            push_entry(&mut o, "itemVariationStore", parsed_field_wide("ItemVariationStore", j, so as u64, len));
        },
        None => {},
    }
    assert(jv_entries(o@) =~= spec_parse_table(t@)->Ok_0->Obj_0);
    Ok(jobj(o))
}

pub open spec fn table_tag() -> Seq<u8> {
    seq![77u8, 86u8, 65u8, 82u8]
}

/// The `MVAR` table of a font, described.
pub open spec fn spec_parse(font: Seq<u8>) -> Result<JsonV, Seq<char>> {
    match spec_load(font, table_tag()) {
        Err(e) => Err(e),
        Ok(t) => spec_parse_table(t),
    }
}

/// Describes the `MVAR` table of a font.
pub fn parse(font: &[u8]) -> (r: Result<Json, String>)
    requires
        small_len(font@.len() as int),
    ensures
        parsed_view(r) == spec_parse(font@),
{
    let tag: Vec<u8> = vec![77u8, 86u8, 65u8, 82u8];
    assert(tag@ =~= table_tag());
    match load_table(font, tag.as_slice()) {
        Err(e) => Err(e),
        Ok(t) => parse_table(t.as_slice()),
    }
}

} // verus!
