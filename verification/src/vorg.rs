use vstd::prelude::*;
use crate::json::{
    jarr, jint, jnum, jobj, jv_entries, jv_seq, new_arr, new_obj, parsed_field, parsed_view,
    push_entry, push_item, sfield, text, Json, JsonV,
};
use crate::font::{load_table, out_of_bounds, spec_load};
use crate::reader::{be_i16, be_u16, i16_at, small_len, u16_at};

verus! {

/// The number of vertical origin records read: all, or none where they run
/// past the table.
pub open spec fn metrics_read(t: Seq<u8>) -> int {
    if 8 + 4 * u16_at(t, 6) <= t.len() { u16_at(t, 6) } else { 0 }
}

pub open spec fn metric_value(t: Seq<u8>, i: int) -> JsonV {
    let p = 8 + 4 * i;
    JsonV::Obj(
        seq![
            ("glyphIndex"@, sfield("uint16"@, JsonV::Num(u16_at(t, p)), p, 2)),
            ("vertOriginY"@, sfield("int16"@, JsonV::Num(i16_at(t, p + 2)), p + 2, 2)),
        ],
    )
}

/// A vertical origin record shows its glyph index at 0 and its origin, signed,
/// at 2, each read at that offset of the record.
pub proof fn origin_record_fields_read_their_bytes(t: Seq<u8>, i: int)
    ensures
        metric_value(t, i)->Obj_0 == seq![
            ("glyphIndex"@, sfield("uint16"@, JsonV::Num(u16_at(t, 8 + 4 * i)), 8 + 4 * i, 2)),
            ("vertOriginY"@, sfield("int16"@, JsonV::Num(i16_at(t, 8 + 4 * i + 2)), 8 + 4 * i + 2, 2)),
        ],
{
}

/// The vertical origin table, described: its header and its records.
/// Tables shorter than the header are refused.
pub open spec fn spec_parse_table(t: Seq<u8>) -> Result<JsonV, Seq<char>> {
    if t.len() < 8 {
        Err(out_of_bounds())
    } else {
        let n = metrics_read(t);
        Ok(
            JsonV::Obj(
                seq![
                    ("majorVersion"@, sfield("uint16"@, JsonV::Num(u16_at(t, 0)), 0, 2)),
                    ("minorVersion"@, sfield("uint16"@, JsonV::Num(u16_at(t, 2)), 2, 2)),
                    ("defaultVertOriginY"@, sfield("int16"@, JsonV::Num(i16_at(t, 4)), 4, 2)),
                    ("numVertOriginYMetrics"@, sfield("uint16"@, JsonV::Num(u16_at(t, 6)), 6, 2)),
                    (
                        "vertOriginYMetrics"@,
                        sfield("VertOriginYMetrics[]"@, JsonV::Arr(Seq::new(n as nat, |i: int| metric_value(t, i))), 8, 4 * n),
                    ),
                ],
            ),
        )
    }
}

/// The vertical origin table, described.
pub fn parse_table(t: &[u8]) -> (r: Result<Json, String>)
    requires
        small_len(t@.len() as int),
    ensures
        parsed_view(r) == spec_parse_table(t@),
{
    if t.len() < 8 {
        return Err(text("An offset was out of bounds"));
    }
    let count = be_u16(t, 6) as usize;
    let n: usize = if 8 + 4 * count <= t.len() { count } else { 0 };
    let ghost want = Seq::new(n as nat, |i: int| metric_value(t@, i));
    let mut metrics = new_arr();
    let mut i: usize = 0;
    while i < n
        invariant
            i <= n,
            8 + 4 * n <= t@.len(),
            small_len(t@.len() as int),
            want == Seq::new(n as nat, |i: int| metric_value(t@, i)),
            jv_seq(metrics@) == want.take(i as int),
        decreases n - i,
    {
        let p = 8 + 4 * i;
        let mut m = new_obj();
        push_entry(&mut m, "glyphIndex", parsed_field("uint16", jnum(be_u16(t, p) as u64), p, 2));
        push_entry(&mut m, "vertOriginY", parsed_field("int16", jint(be_i16(t, p + 2) as i64), p + 2, 2));
        assert(jv_entries(m@) =~= want[i as int]->Obj_0);
        push_item(&mut metrics, jobj(m));
        assert(want.take(i + 1) =~= want.take(i as int).push(want[i as int]));
        i = i + 1;
    }
    assert(want.take(n as int) =~= want);
    let mut o = new_obj();
    push_entry(&mut o, "majorVersion", parsed_field("uint16", jnum(be_u16(t, 0) as u64), 0, 2));
    push_entry(&mut o, "minorVersion", parsed_field("uint16", jnum(be_u16(t, 2) as u64), 2, 2));
    push_entry(&mut o, "defaultVertOriginY", parsed_field("int16", jint(be_i16(t, 4) as i64), 4, 2));
    push_entry(&mut o, "numVertOriginYMetrics", parsed_field("uint16", jnum(count as u64), 6, 2));
    push_entry(&mut o, "vertOriginYMetrics", parsed_field("VertOriginYMetrics[]", jarr(metrics), 8, 4 * n));
    assert(jv_entries(o@) =~= spec_parse_table(t@)->Ok_0->Obj_0);
    Ok(jobj(o))
}

pub open spec fn table_tag() -> Seq<u8> {
    seq![86u8, 79u8, 82u8, 71u8]
}

/// The `VORG` table of a font, described.
pub open spec fn spec_parse(font: Seq<u8>) -> Result<JsonV, Seq<char>> {
    match spec_load(font, table_tag()) {
        Err(e) => Err(e),
        Ok(t) => spec_parse_table(t),
    }
}

/// Describes the `VORG` table of a font.
pub fn parse(font: &[u8]) -> (r: Result<Json, String>)
    requires
        small_len(font@.len() as int),
    ensures
        parsed_view(r) == spec_parse(font@),
{
    let tag: Vec<u8> = vec![86u8, 79u8, 82u8, 71u8];
    assert(tag@ =~= table_tag());
    match load_table(font, tag.as_slice()) {
        Err(e) => Err(e),
        Ok(t) => parse_table(t.as_slice()),
    }
}

} // verus!
