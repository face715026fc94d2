use vstd::prelude::*;
use crate::json::{
    jarr, jnum, jobj, jv_entries, jv_seq, new_arr, new_obj, parsed_field, parsed_field_wide,
    parsed_view, push_entry, push_item, sfield, sfield_sum, text, with_summary, Json, JsonV,
};
use crate::font::{load_table, out_of_bounds, spec_load, tag_string, tag_text};
use crate::fvar::{name_id_field, name_id_value};
use crate::reader::{be_i32, be_u16, be_u32, i32_at, small_len, u16_at, u32_at};
use crate::text::{dec, dec_string, flag_names, flags_string_opt, flags_text_opt, set_flag_names, strs_view, table_view};
use vstd::string::StringExecFns;

verus! {

pub open spec fn axis_value_flags() -> Seq<(u64, Seq<char>)> {
    seq![(0x1u64, "Older sibling font attribute"@), (0x2u64, "Elidable axis value name"@)]
}

/// The flags of an axis value (the bits the format defines), with the names
/// of those set as the summary where any is.
pub open spec fn flags_value(raw: int, offset: int) -> JsonV {
    let bits = raw % 4;
    let names = flag_names(bits as u64, axis_value_flags());
    if names.len() == 0 {
        sfield("uint16"@, JsonV::Num(bits), offset, 2)
    } else {
        sfield_sum("uint16"@, JsonV::Num(bits), offset, 2, flags_text_opt(bits as nat, 4, names))
    }
}

/// Describes the flags of an axis value.
pub fn flags_field(raw: u16, offset: usize) -> (r: Json)
    ensures
        r.jv() == flags_value(raw as int, offset as int),
{
    let bits = raw & 3;
    assert(raw & 3 == raw % 4) by (bit_vector);
    let table: Vec<(u64, &'static str)> = vec![(0x1, "Older sibling font attribute"), (0x2, "Elidable axis value name")];
    assert(table_view(table@) =~= axis_value_flags());
    let names = set_flag_names(bits as u64, &table);
    let f = parsed_field("uint16", jnum(bits as u64), offset, 2);
    if names.len() == 0 {
        f
    } else {
        let s = flags_string_opt(bits as u64, 4, &names);
        let ghost sv = s@;
        assert(sfield("uint16"@, JsonV::Num(bits as int), offset as int, 2)->Obj_0.push(("summary"@, JsonV::Str(sv)))
            =~= sfield_sum("uint16"@, JsonV::Num(bits as int), offset as int, 2, sv)->Obj_0);
        with_summary(f, s)
    }
}

/// The least size of an axis value table of each format, or `None` for a
/// format that is not defined.
pub open spec fn value_min_size(format: int) -> Option<int> {
    if format == 1 {
        Some(12)
    } else if format == 2 {
        Some(20)
    } else if format == 3 {
        Some(16)
    } else if format == 4 {
        Some(8)
    } else {
        None
    }
}

/// Where the axis value at relative offset `rel` from the offsets array at
/// `aoff` cannot be read, why: a null offset, data past the table, or a
/// format that is not defined.
pub open spec fn value_error(t: Seq<u8>, aoff: int, rel: int) -> Option<Seq<char>> {
    let off = aoff + rel;
    if rel == 0 {
        Some("An offset was unexpectedly null"@)
    } else if off + 2 > t.len() {
        Some(out_of_bounds())
    } else {
        match value_min_size(u16_at(t, off)) {
            None => Some("Invalid format '"@ + dec(u16_at(t, off) as nat, 1) + "'"@),
            Some(min) => if off + min > t.len() {
                Some(out_of_bounds())
            } else {
                None
            },
        }
    }
}

/// The relative offset of axis value `i`.
pub open spec fn value_rel(t: Seq<u8>, aoff: int, i: int) -> int {
    u16_at(t, aoff + 2 * i)
}

/// The first error among the axis values from `i` to `n`.
pub open spec fn first_value_error(t: Seq<u8>, aoff: int, n: int, i: int) -> Option<Seq<char>>
    decreases n - i,
{
    if i < 0 || i >= n {
        None
    } else {
        match value_error(t, aoff, value_rel(t, aoff, i)) {
            Some(e) => Some(e),
            None => first_value_error(t, aoff, n, i + 1),
        }
    }
}

pub open spec fn design_axes_offset(t: Seq<u8>) -> int {
    u32_at(t, 8)
}

pub open spec fn design_axis_count(t: Seq<u8>) -> int {
    u16_at(t, 6)
}

pub open spec fn values_offset(t: Seq<u8>) -> int {
    u32_at(t, 14)
}

/// The number of axis value offsets read: all, or none where they run past
/// the table.
pub open spec fn offsets_read(t: Seq<u8>) -> int {
    if values_offset(t) + 2 * u16_at(t, 12) <= t.len() { u16_at(t, 12) } else { 0 }
}

/// Why the style attributes table cannot be described, if it cannot.
pub open spec fn stat_error(t: Seq<u8>) -> Option<Seq<char>> {
    if t.len() < 18 {
        Some(out_of_bounds())
    } else if design_axes_offset(t) == 0 {
        Some("An offset was unexpectedly null"@)
    } else if design_axes_offset(t) + 8 * design_axis_count(t) > t.len() {
        Some(out_of_bounds())
    } else if values_offset(t) == 0 {
        None
    } else if values_offset(t) > t.len() {
        Some(out_of_bounds())
    } else {
        first_value_error(t, values_offset(t), offsets_read(t), 0)
    }
}

/// The number of bytes an axis value table covers (the fixed part of its format).
pub open spec fn value_len(t: Seq<u8>, off: int) -> int {
    let f = u16_at(t, off);
    if f == 1 {
        12
    } else if f == 2 {
        20
    } else if f == 3 {
        16
    } else if off + 8 + 6 * u16_at(t, off + 2) <= t.len() {
        8 + 6 * u16_at(t, off + 2)
    } else {
        0
    }
}

pub open spec fn axis_value_record(t: Seq<u8>, p: int) -> JsonV {
    JsonV::Obj(
        seq![
            ("axisIndex"@, sfield("uint16"@, JsonV::Num(u16_at(t, p)), p, 2)),
            ("value"@, sfield("Fixed"@, JsonV::Fixed(i32_at(t, p + 2)), p + 2, 4)),
        ],
    )
}

/// The axis value table at `off`, described by its format.
pub open spec fn axis_value(t: Seq<u8>, off: int) -> JsonV {
    let f = u16_at(t, off);
    let head: Seq<(Seq<char>, JsonV)> = seq![
        ("format"@, sfield("uint16"@, JsonV::Num(f), off, 2)),
        (if f == 4 { "axisCount"@ } else { "axisIndex"@ }, sfield("uint16"@, JsonV::Num(u16_at(t, off + 2)), off + 2, 2)),
        ("flags"@, flags_value(u16_at(t, off + 4), off + 4)),
        ("valueNameID"@, name_id_value(u16_at(t, off + 6) as u16, off + 6, 2)),
    ];
    let rest: Seq<(Seq<char>, JsonV)> = if f == 1 {
        seq![("value"@, sfield("Fixed"@, JsonV::Fixed(i32_at(t, off + 8)), off + 8, 4))]
    } else if f == 2 {
        seq![
            ("nominalValue"@, sfield("Fixed"@, JsonV::Fixed(i32_at(t, off + 8)), off + 8, 4)),
            ("rangeMinValue"@, sfield("Fixed"@, JsonV::Fixed(i32_at(t, off + 12)), off + 12, 4)),
            ("rangeMaxValue"@, sfield("Fixed"@, JsonV::Fixed(i32_at(t, off + 16)), off + 16, 4)),
        ]
    } else if f == 3 {
        seq![
            ("value"@, sfield("Fixed"@, JsonV::Fixed(i32_at(t, off + 8)), off + 8, 4)),
            ("linkedValue"@, sfield("Fixed"@, JsonV::Fixed(i32_at(t, off + 12)), off + 12, 4)),
        ]
    } else {
        let n = if off + 8 + 6 * u16_at(t, off + 2) <= t.len() { u16_at(t, off + 2) } else { 0 };
        seq![
            (
                "axisValues"@,
                sfield(
                    "AxisValueRecord[]"@,
                    JsonV::Arr(Seq::new(n as nat, |i: int| axis_value_record(t, off + 8 + 6 * i))),
                    off + 8,
                    6 * n,
                ),
            ),
        ]
    };
    JsonV::Obj(head + rest)
}

/// An axis value table shows its fields in the order of the STAT layout,
/// each read at the offset it reports: the format at 0, the axis index
/// (the axis count for format 4) at 2, the flags at 4, the value name at 6;
/// then for format 1 the value at 8; for format 2 the nominal, minimum and
/// maximum values at 8, 12 and 16; for format 3 the value at 8 and the
/// value it links to at 12.
pub proof fn axis_value_fields_follow_the_layout(t: Seq<u8>, off: int)
    ensures
        ({
            let f = u16_at(t, off);
            let e = axis_value(t, off)->Obj_0;
            let fixed = |p: int| sfield("Fixed"@, JsonV::Fixed(i32_at(t, p)), p, 4);
            &&& e[0] == ("format"@, sfield("uint16"@, JsonV::Num(f), off, 2))
            &&& e[1].1 == sfield("uint16"@, JsonV::Num(u16_at(t, off + 2)), off + 2, 2)
            &&& e[2] == ("flags"@, flags_value(u16_at(t, off + 4), off + 4))
            &&& e[3] == ("valueNameID"@, name_id_value(u16_at(t, off + 6) as u16, off + 6, 2))
            &&& (f == 1 ==> e.len() == 5 && e[4] == ("value"@, fixed(off + 8)))
            &&& (f == 2 ==> e.len() == 7
                && e[4] == ("nominalValue"@, fixed(off + 8))
                && e[5] == ("rangeMinValue"@, fixed(off + 12))
                && e[6] == ("rangeMaxValue"@, fixed(off + 16)))
            &&& (f == 3 ==> e.len() == 6
                && e[4] == ("value"@, fixed(off + 8))
                && e[5] == ("linkedValue"@, fixed(off + 12)))
        }),
{
    let f = u16_at(t, off);
    let e = axis_value(t, off)->Obj_0;
    if f == 1 || f == 2 || f == 3 {
        assert(e[0].0 == "format"@);
    }
}

/// The least offset of the first `i` axis values.
pub open spec fn values_start(t: Seq<u8>, aoff: int, i: int) -> Option<int>
    decreases i,
{
    if i <= 0 {
        None
    } else {
        let o = aoff + value_rel(t, aoff, i - 1);
        match values_start(t, aoff, i - 1) {
            None => Some(o),
            Some(s) => Some(if o < s { o } else { s }),
        }
    }
}

/// The furthest end of the first `i` axis values, and at least `aoff`.
pub open spec fn values_end(t: Seq<u8>, aoff: int, i: int) -> int
    decreases i,
{
    if i <= 0 {
        aoff
    } else {
        let o = aoff + value_rel(t, aoff, i - 1);
        let e = o + value_len(t, o);
        let prev = values_end(t, aoff, i - 1);
        if e > prev { e } else { prev }
    }
}

pub open spec fn design_axis_value(t: Seq<u8>, i: int, off: int) -> JsonV {
    let p = design_axes_offset(t) + 8 * i;
    JsonV::Obj(
        seq![
            ("axisTag"@, sfield("Tag"@, JsonV::Str(tag_text(t.subrange(p, p + 4))), off, 4)),
            ("axisNameID"@, name_id_value(u16_at(t, p + 4) as u16, off + 4, 2)),
            ("axisOrdering"@, sfield("uint16"@, JsonV::Num(u16_at(t, p + 6)), off + 6, 2)),
        ],
    )
}

/// A design axis record shows its tag at 0, its name at 4 and its ordering
/// at 6; an axis value record inside a format 4 table its axis index at 0 and
/// its value at 2.
pub proof fn axis_records_read_their_bytes(t: Seq<u8>, i: int, off: int, q: int)
    ensures
        ({
            let p = design_axes_offset(t) + 8 * i;
            design_axis_value(t, i, off)->Obj_0 == seq![
                ("axisTag"@, sfield("Tag"@, JsonV::Str(tag_text(t.subrange(p, p + 4))), off, 4)),
                ("axisNameID"@, name_id_value(u16_at(t, p + 4) as u16, off + 4, 2)),
                ("axisOrdering"@, sfield("uint16"@, JsonV::Num(u16_at(t, p + 6)), off + 6, 2)),
            ]
        }),
        axis_value_record(t, q)->Obj_0 == seq![
            ("axisIndex"@, sfield("uint16"@, JsonV::Num(u16_at(t, q)), q, 2)),
            ("value"@, sfield("Fixed"@, JsonV::Fixed(i32_at(t, q + 2)), q + 2, 4)),
        ],
{
}

/// The table states an elided fallback name (version 1.1 or later).
pub open spec fn has_elided_name(t: Seq<u8>) -> bool {
    u16_at(t, 0) == 1 && u16_at(t, 2) >= 1 && t.len() >= 20
}

/// The described offsets of the axis values and the axis values themselves.
pub open spec fn axis_values_entries(t: Seq<u8>) -> Seq<(Seq<char>, JsonV)> {
    let aoff = values_offset(t);
    let n = offsets_read(t);
    seq![
        (
            "axisValueOffsets"@,
            sfield(
                "Offset16[]"@,
                JsonV::Arr(
                    Seq::new(
                        n as nat,
                        |i: int| sfield("Offset16"@, JsonV::Num(value_rel(t, aoff, i)), aoff + 2 * i, 2),
                    ),
                ),
                aoff,
                2 * n,
            ),
        ),
        (
            "axisValues"@,
            sfield(
                "AxisValue[]"@,
                JsonV::Arr(Seq::new(n as nat, |i: int| axis_value(t, aoff + value_rel(t, aoff, i)))),
                match values_start(t, aoff, n) {
                    Some(s) => s,
                    None => aoff,
                },
                match values_start(t, aoff, n) {
                    Some(s) => values_end(t, aoff, n) - s,
                    None => 0,
                },
            ),
        ),
    ]
}

/// The style attributes table, described: its header, its design axes
/// (shown at steps of the stated axis size), and where the table has them,
/// the offsets of its axis values and the axis values themselves.
pub open spec fn spec_parse_table(t: Seq<u8>) -> Result<JsonV, Seq<char>> {
    match stat_error(t) {
        Some(e) => Err(e),
        None => {
            let dao = design_axes_offset(t);
            let das = u16_at(t, 4);
            let dac = design_axis_count(t);
            let aoff = values_offset(t);
            let n = offsets_read(t);
            let head = seq![
                ("majorVersion"@, sfield("uint16"@, JsonV::Num(u16_at(t, 0)), 0, 2)),
                ("minorVersion"@, sfield("uint16"@, JsonV::Num(u16_at(t, 2)), 2, 2)),
                ("designAxisSize"@, sfield("uint16"@, JsonV::Num(das), 4, 2)),
                ("designAxisCount"@, sfield("uint16"@, JsonV::Num(dac), 6, 2)),
                ("designAxesOffset"@, sfield("Offset32"@, JsonV::Num(dao), 8, 4)),
                ("axisValueCount"@, sfield("uint16"@, JsonV::Num(u16_at(t, 12)), 12, 2)),
                ("offsetToAxisValueOffsets"@, sfield("Offset32"@, JsonV::Num(aoff), 14, 4)),
            ];
            let elided: Seq<(Seq<char>, JsonV)> = if has_elided_name(t) {
                seq![("elidedFallbackNameID"@, name_id_value(u16_at(t, 18) as u16, 18, 2))]
            } else {
                seq![]
            };
            let axes = seq![
                (
                    "designAxes"@,
                    sfield(
                        "AxisRecord[]"@,
                        JsonV::Arr(Seq::new(dac as nat, |i: int| design_axis_value(t, i, dao + i * das))),
                        dao,
                        dac * das,
                    ),
                ),
            ];
            let values: Seq<(Seq<char>, JsonV)> = if aoff == 0 { seq![] } else { axis_values_entries(t) };
            Ok(JsonV::Obj(head + elided + axes + values))
        },
    }
}

/// The header of a style attributes table shows its fields in the order they
/// are stored, each read at its offset: the versions at 0 and 2, the design
/// axis size at 4, the design axis count at 6, the design axes offset at 8,
/// the axis value count at 12 and the offset of the axis value offsets at 14.
pub proof fn stat_header_follows_the_record(t: Seq<u8>)
    requires
        spec_parse_table(t) is Ok,
    ensures
        ({
            let e = spec_parse_table(t)->Ok_0->Obj_0;
            &&& e[0] == ("majorVersion"@, sfield("uint16"@, JsonV::Num(u16_at(t, 0)), 0, 2))
            &&& e[1] == ("minorVersion"@, sfield("uint16"@, JsonV::Num(u16_at(t, 2)), 2, 2))
            &&& e[2] == ("designAxisSize"@, sfield("uint16"@, JsonV::Num(u16_at(t, 4)), 4, 2))
            &&& e[3] == ("designAxisCount"@, sfield("uint16"@, JsonV::Num(u16_at(t, 6)), 6, 2))
            &&& e[4] == ("designAxesOffset"@, sfield("Offset32"@, JsonV::Num(u32_at(t, 8)), 8, 4))
            &&& e[5] == ("axisValueCount"@, sfield("uint16"@, JsonV::Num(u16_at(t, 12)), 12, 2))
            &&& e[6] == ("offsetToAxisValueOffsets"@, sfield("Offset32"@, JsonV::Num(u32_at(t, 14)), 14, 4))
        }),
{
}

} // verus!

verus! {

pub open spec fn opt_int(o: Option<usize>) -> Option<int> {
    match o {
        Some(x) => Some(x as int),
        None => None,
    }
}

fn fixed_at(t: &[u8], p: usize) -> (r: Json)
    requires
        p + 4 <= t@.len(),
        small_len(t@.len() as int),
    ensures
        r.jv() == sfield("Fixed"@, JsonV::Fixed(i32_at(t@, p as int)), p as int, 4),
{
    parsed_field("Fixed", Json::Fixed(be_i32(t, p)), p, 4)
}

/// Describes the axis value table at `off`.
pub fn parse_axis_value(t: &[u8], off: usize) -> (r: Json)
    requires
        off + 2 <= t@.len(),
        value_min_size(u16_at(t@, off as int)) matches Some(min) && off + min <= t@.len(),
        small_len(t@.len() as int),
    ensures
        r.jv() == axis_value(t@, off as int),
{
    let f = be_u16(t, off);
    let mut o = new_obj();
    push_entry(&mut o, "format", parsed_field("uint16", jnum(f as u64), off, 2));
    let key = if f == 4 { "axisCount" } else { "axisIndex" };
    push_entry(&mut o, key, parsed_field("uint16", jnum(be_u16(t, off + 2) as u64), off + 2, 2));
    push_entry(&mut o, "flags", flags_field(be_u16(t, off + 4), off + 4));
    push_entry(&mut o, "valueNameID", name_id_field(be_u16(t, off + 6), (off + 6) as u64, 2));
    if f == 1 {
        push_entry(&mut o, "value", fixed_at(t, off + 8));
    } else if f == 2 {
        push_entry(&mut o, "nominalValue", fixed_at(t, off + 8));
        push_entry(&mut o, "rangeMinValue", fixed_at(t, off + 12));
        push_entry(&mut o, "rangeMaxValue", fixed_at(t, off + 16));
    } else if f == 3 {
        push_entry(&mut o, "value", fixed_at(t, off + 8));
        push_entry(&mut o, "linkedValue", fixed_at(t, off + 12));
    } else {
        let ac = be_u16(t, off + 2) as usize;
        let n: usize = if off + 8 + 6 * ac <= t.len() { ac } else { 0 };
        let ghost want = Seq::new(n as nat, |i: int| axis_value_record(t@, off + 8 + 6 * i));
        let mut records = new_arr();
        let mut i: usize = 0;
        while i < n
            invariant
                i <= n,
                off + 8 + 6 * n <= t@.len(),
                small_len(t@.len() as int),
                want == Seq::new(n as nat, |i: int| axis_value_record(t@, off + 8 + 6 * i)),
                jv_seq(records@) == want.take(i as int),
            decreases n - i,
        {
            let p = off + 8 + 6 * i;
            let mut rec = new_obj();
            push_entry(&mut rec, "axisIndex", parsed_field("uint16", jnum(be_u16(t, p) as u64), p, 2));
            push_entry(&mut rec, "value", fixed_at(t, p + 2));
            assert(jv_entries(rec@) =~= want[i as int]->Obj_0);
            push_item(&mut records, jobj(rec));
            assert(want.take(i + 1) =~= want.take(i as int).push(want[i as int]));
            i = i + 1;
        }
        assert(want.take(n as int) =~= want);
        push_entry(&mut o, "axisValues", parsed_field("AxisValueRecord[]", jarr(records), off + 8, 6 * n));
    }
    assert(jv_entries(o@) =~= axis_value(t@, off as int)->Obj_0);
    jobj(o)
}

/// Describes design axis record `i`, shown at `off`.
pub fn parse_axis_record(t: &[u8], i: usize, off: u64) -> (r: Json)
    requires
        design_axes_offset(t@) + 8 * i + 8 <= t@.len(),
        t@.len() >= 18,
        small_len(t@.len() as int),
        off <= 0x1_0000_0000_0000,
    ensures
        r.jv() == design_axis_value(t@, i as int, off as int),
{
    let p = be_u32(t, 8) as usize + 8 * i;
    let mut o = new_obj();
    push_entry(&mut o, "axisTag", parsed_field_wide("Tag", Json::Str(tag_string(t, p)), off, 4));
    push_entry(&mut o, "axisNameID", name_id_field(be_u16(t, p + 4), off + 4, 2));
    push_entry(&mut o, "axisOrdering", parsed_field_wide("uint16", jnum(be_u16(t, p + 6) as u64), off + 6, 2));
    assert(jv_entries(o@) =~= design_axis_value(t@, i as int, off as int)->Obj_0);
    jobj(o)
}

fn value_error_text(t: &[u8], aoff: usize, rel: usize) -> (r: Option<String>)
    requires
        aoff <= t@.len(),
        rel <= 0xFFFF,
        small_len(t@.len() as int),
    ensures
        crate::text::opt_string(r) == value_error(t@, aoff as int, rel as int),
{
    let off = aoff + rel;
    if rel == 0 {
        return Some(text("An offset was unexpectedly null"));
    }
    if off + 2 > t.len() {
        return Some(text("An offset was out of bounds"));
    }
    let f = be_u16(t, off);
    let min: usize = if f == 1 {
        12
    } else if f == 2 {
        20
    } else if f == 3 {
        16
    } else if f == 4 {
        8
    } else {
        let mut m = text("Invalid format '");
        let d = dec_string(f as u64, 1);
        m.append(d.as_str());
        m.append("'");
        return Some(m);
    };
    if off + min > t.len() {
        return Some(text("An offset was out of bounds"));
    }
    None
}

fn value_len_exec(t: &[u8], off: usize) -> (r: usize)
    requires
        off + 2 <= t@.len(),
        value_min_size(u16_at(t@, off as int)) matches Some(min) && off + min <= t@.len(),
        small_len(t@.len() as int),
    ensures
        r == value_len(t@, off as int),
        off + r <= t@.len(),
{
    let f = be_u16(t, off);
    if f == 1 {
        12
    } else if f == 2 {
        20
    } else if f == 3 {
        16
    } else {
        let ac = be_u16(t, off + 2) as usize;
        if off + 8 + 6 * ac <= t.len() { 8 + 6 * ac } else { 0 }
    }
}

/// Describes the offsets of the axis values and the axis values, or gives
/// the error of the first that cannot be read.
fn parse_axis_values(t: &[u8]) -> (r: Result<Vec<(String, Json)>, String>)
    requires
        t@.len() >= 18,
        values_offset(t@) != 0,
        values_offset(t@) <= t@.len(),
        small_len(t@.len() as int),
    ensures
        match r {
            Ok(v) => first_value_error(t@, values_offset(t@), offsets_read(t@), 0) is None
                && jv_entries(v@) == axis_values_entries(t@),
            Err(e) => first_value_error(t@, values_offset(t@), offsets_read(t@), 0) == Some(e@),
        },
{
    let aoff = be_u32(t, 14) as usize;
    let avc = be_u16(t, 12) as usize;
    let n: usize = if aoff + 2 * avc <= t.len() { avc } else { 0 };
    let mut start: Option<usize> = None;
    let mut end: usize = aoff;
    let mut values = new_arr();
    let ghost want = Seq::new(n as nat, |i: int| axis_value(t@, aoff + value_rel(t@, aoff as int, i)));
    let mut i: usize = 0;
    while i < n
        invariant
            i <= n,
            aoff == values_offset(t@),
            aoff <= t@.len(),
            n == offsets_read(t@),
            t@.len() >= 18,
            aoff + 2 * n <= t@.len(),
            small_len(t@.len() as int),
            first_value_error(t@, aoff as int, n as int, 0) == first_value_error(t@, aoff as int, n as int, i as int),
            opt_int(start) == values_start(t@, aoff as int, i as int),
            start matches Some(s) ==> s <= t@.len(),
            end == values_end(t@, aoff as int, i as int),
            end <= t@.len(),
            want == Seq::new(n as nat, |i: int| axis_value(t@, aoff + value_rel(t@, aoff as int, i))),
            jv_seq(values@) == want.take(i as int),
        decreases n - i,
    {
        let rel = be_u16(t, aoff + 2 * i) as usize;
        match value_error_text(t, aoff, rel) {
            Some(e) => {
                return Err(e);
            },
            None => {},
        }
        let off = aoff + rel;
        push_item(&mut values, parse_axis_value(t, off));
        assert(want.take(i + 1) =~= want.take(i as int).push(want[i as int]));
        let len = value_len_exec(t, off);
        start = match start {
            None => Some(off),
            Some(s) => Some(if off < s { off } else { s }),
        };
        if off + len > end {
            end = off + len;
        }
        i = i + 1;
    }
    assert(want.take(n as int) =~= want);
    let ghost want_o = Seq::new(
        n as nat,
        |i: int| sfield("Offset16"@, JsonV::Num(value_rel(t@, aoff as int, i)), aoff + 2 * i, 2),
    );
    let mut offsets = new_arr();
    let mut j: usize = 0;
    while j < n
        invariant
            j <= n,
            aoff + 2 * n <= t@.len(),
            small_len(t@.len() as int),
            want_o == Seq::new(
                n as nat,
                |i: int| sfield("Offset16"@, JsonV::Num(value_rel(t@, aoff as int, i)), aoff + 2 * i, 2),
            ),
            jv_seq(offsets@) == want_o.take(j as int),
        decreases n - j,
    {
        push_item(&mut offsets, parsed_field("Offset16", jnum(be_u16(t, aoff + 2 * j) as u64), aoff + 2 * j, 2));
        assert(want_o.take(j + 1) =~= want_o.take(j as int).push(want_o[j as int]));
        j = j + 1;
    }
    assert(want_o.take(n as int) =~= want_o);
    let mut o = new_obj();
    push_entry(&mut o, "axisValueOffsets", parsed_field("Offset16[]", jarr(offsets), aoff, 2 * n));
    let (vs, vl): (usize, usize) = match start {
        Some(s) => (s, end - s),
        None => (aoff, 0),
    };
    push_entry(&mut o, "axisValues", parsed_field("AxisValue[]", jarr(values), vs, vl));
    assert(jv_entries(o@) =~= axis_values_entries(t@));
    Ok(o)
}

/// Describes the design axis records.
fn parse_design_axes(t: &[u8]) -> (r: Json)
    requires
        t@.len() >= 18,
        design_axes_offset(t@) + 8 * design_axis_count(t@) <= t@.len(),
        small_len(t@.len() as int),
    ensures
        r.jv() == sfield(
            "AxisRecord[]"@,
            JsonV::Arr(
                Seq::new(
                    design_axis_count(t@) as nat,
                    |i: int| design_axis_value(t@, i, design_axes_offset(t@) + i * u16_at(t@, 4)),
                ),
            ),
            design_axes_offset(t@),
            design_axis_count(t@) * u16_at(t@, 4),
        ),
{
    let dao = be_u32(t, 8) as usize;
    let das = be_u16(t, 4);
    let dac = be_u16(t, 6) as usize;
    let ghost want_d = Seq::new(dac as nat, |i: int| design_axis_value(t@, i, dao + i * das));
    let mut axes = new_arr();
    let mut k: usize = 0;
    while k < dac
        invariant
            k <= dac,
            dac == design_axis_count(t@),
            dao == design_axes_offset(t@),
            das == u16_at(t@, 4),
            dao + 8 * dac <= t@.len(),
            t@.len() >= 18,
            small_len(t@.len() as int),
            want_d == Seq::new(dac as nat, |i: int| design_axis_value(t@, i, dao + i * das)),
            jv_seq(axes@) == want_d.take(k as int),
        decreases dac - k,
    {
        assert(k * das <= 0xFFFF * 0xFFFF) by (nonlinear_arith)
            requires k <= 0xFFFF, das <= 0xFFFF;
        push_item(&mut axes, parse_axis_record(t, k, (dao as u64) + (k as u64) * (das as u64)));
        assert(want_d.take(k + 1) =~= want_d.take(k as int).push(want_d[k as int]));
        k = k + 1;
    }
    assert(want_d.take(dac as int) =~= want_d);
    assert((dac as u64) * (das as u64) <= 0xFFFF * 0xFFFF) by (nonlinear_arith)
        requires dac <= 0xFFFF, das <= 0xFFFF;
    parsed_field_wide("AxisRecord[]", jarr(axes), dao as u64, (dac as u64) * (das as u64))
}

/// The style attributes table, described.
pub fn parse_table(t: &[u8]) -> (r: Result<Json, String>)
    requires
        small_len(t@.len() as int),
    ensures
        parsed_view(r) == spec_parse_table(t@),
{
    if t.len() < 18 {
        return Err(text("An offset was out of bounds"));
    }
    let dao = be_u32(t, 8) as usize;
    let dac = be_u16(t, 6) as usize;
    if dao == 0 {
        return Err(text("An offset was unexpectedly null"));
    }
    if dao > t.len() || t.len() - dao < 8 * dac {
        return Err(text("An offset was out of bounds"));
    }
    let aoff = be_u32(t, 14) as usize;
    if aoff != 0 && aoff > t.len() {
        return Err(text("An offset was out of bounds"));
    }
    let mut tail: Vec<(String, Json)> = new_obj();
    if aoff != 0 {
        match parse_axis_values(t) {
            Err(e) => return Err(e),
            Ok(v) => {
                tail = v;
            },
        }
    }
    let mut o = new_obj();
    push_entry(&mut o, "majorVersion", parsed_field("uint16", jnum(be_u16(t, 0) as u64), 0, 2));
    push_entry(&mut o, "minorVersion", parsed_field("uint16", jnum(be_u16(t, 2) as u64), 2, 2));
    push_entry(&mut o, "designAxisSize", parsed_field("uint16", jnum(be_u16(t, 4) as u64), 4, 2));
    push_entry(&mut o, "designAxisCount", parsed_field("uint16", jnum(dac as u64), 6, 2));
    push_entry(&mut o, "designAxesOffset", parsed_field("Offset32", jnum(dao as u64), 8, 4));
    push_entry(&mut o, "axisValueCount", parsed_field("uint16", jnum(be_u16(t, 12) as u64), 12, 2));
    push_entry(&mut o, "offsetToAxisValueOffsets", parsed_field("Offset32", jnum(aoff as u64), 14, 4));
    if be_u16(t, 0) == 1 && be_u16(t, 2) >= 1 && t.len() >= 20 {
        push_entry(&mut o, "elidedFallbackNameID", name_id_field(be_u16(t, 18), 18, 2));
    }
    push_entry(&mut o, "designAxes", parse_design_axes(t));
    let ghost before = jv_entries(o@);
    let ghost tv = jv_entries(tail@);
    o.append(&mut tail);
    assert(jv_entries(o@) =~= before + tv);
    assert(jv_entries(o@) =~= spec_parse_table(t@)->Ok_0->Obj_0);
    Ok(jobj(o))
}

pub open spec fn table_tag() -> Seq<u8> {
    seq![83u8, 84u8, 65u8, 84u8]
}

/// The `STAT` table of a font, described.
pub open spec fn spec_parse(font: Seq<u8>) -> Result<JsonV, Seq<char>> {
    match spec_load(font, table_tag()) {
        Err(e) => Err(e),
        Ok(t) => spec_parse_table(t),
    }
}

/// Describes the `STAT` table of a font.
pub fn parse(font: &[u8]) -> (r: Result<Json, String>)
    requires
        small_len(font@.len() as int),
    ensures
        parsed_view(r) == spec_parse(font@),
{
    let tag: Vec<u8> = vec![83u8, 84u8, 65u8, 84u8];
    assert(tag@ =~= table_tag());
    match load_table(font, tag.as_slice()) {
        Err(e) => Err(e),
        Ok(t) => parse_table(t.as_slice()),
    }
}

} // verus!
