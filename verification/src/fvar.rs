use vstd::prelude::*;
use crate::json::{
    jarr, jnum, jobj, jv_entries, jv_seq, new_arr, new_obj, parsed_field, parsed_field_wide,
    parsed_view, push_entry, push_item, sfield, sfield_sum, text, Json, JsonV,
};
use crate::font::{load_table, out_of_bounds, spec_load, tag_string, tag_text};
use crate::name::{name_id_label, opt_field, spec_name_id_label};
use crate::reader::{be_i32, be_u16, i32_at, small_len, u16_at};
use crate::text::{dec, dec_string, opt_string};
use vstd::string::StringExecFns;

verus! {

/// A name ID field with the meaning of the ID as its summary.
pub open spec fn name_id_value(id: u16, offset: int, length: int) -> JsonV {
    opt_field("uint16"@, JsonV::Num(id as int), offset, length, spec_name_id_label(id))
}

/// Describes a name ID with its meaning.
pub fn name_id_field(id: u16, offset: u64, length: u64) -> (r: Json)
    ensures
        r.jv() == name_id_value(id, offset as int, length as int),
{
    let f = parsed_field_wide("uint16", jnum(id as u64), offset, length);
    match name_id_label(id) {
        Some(s) => {
            let ghost sv = s@;
            assert(sfield("uint16"@, JsonV::Num(id as int), offset as int, length as int)->Obj_0.push(
                ("summary"@, JsonV::Str(sv)),
            ) =~= sfield_sum("uint16"@, JsonV::Num(id as int), offset as int, length as int, sv)->Obj_0);
            crate::json::with_summary(f, s)
        },
        None => f,
    }
}

pub open spec fn axis_count(t: Seq<u8>) -> int {
    u16_at(t, 8)
}

pub open spec fn axis_size(t: Seq<u8>) -> int {
    u16_at(t, 10)
}

pub open spec fn instance_count(t: Seq<u8>) -> int {
    u16_at(t, 12)
}

pub open spec fn instance_size(t: Seq<u8>) -> int {
    u16_at(t, 14)
}

/// Where the axis and instance arrays start.
pub open spec fn arrays_offset(t: Seq<u8>) -> int {
    u16_at(t, 4)
}

/// Every instance record can be read: each lies within the table and holds
/// its coordinates.
pub open spec fn instances_readable(t: Seq<u8>) -> bool {
    let ac = axis_count(t);
    let ic = instance_count(t);
    let is = instance_size(t);
    ic == 0 || (is > 0 && arrays_offset(t) + 20 * ac + ic * is <= t.len() && 4 + 4 * ac <= is)
}

/// Why the table cannot be described, if it cannot: it is shorter than its
/// header, its arrays' offset is null or points past it, or an instance
/// record cannot be read.
pub open spec fn fvar_error(t: Seq<u8>) -> Option<Seq<char>> {
    if t.len() < 16 {
        Some(out_of_bounds())
    } else if arrays_offset(t) == 0 {
        Some("An offset was unexpectedly null"@)
    } else if arrays_offset(t) > t.len() {
        Some(out_of_bounds())
    } else if !instances_readable(t) {
        Some(out_of_bounds())
    } else {
        None
    }
}

/// The number of axis records read: all, or none where they run past the table.
pub open spec fn axes_read(t: Seq<u8>) -> int {
    if arrays_offset(t) + 20 * axis_count(t) <= t.len() { axis_count(t) } else { 0 }
}

/// Axis record `i` (read at its 20-byte slot), shown at `off`.
pub open spec fn axis_value(t: Seq<u8>, i: int, off: int) -> JsonV {
    let p = arrays_offset(t) + 20 * i;
    let flags = u16_at(t, p + 16);
    JsonV::Obj(
        seq![
            ("axisTag"@, sfield("Tag"@, JsonV::Str(tag_text(t.subrange(p, p + 4))), off, 4)),
            ("minValue"@, sfield("Fixed"@, JsonV::Fixed(i32_at(t, p + 4)), off + 4, 4)),
            ("defaultValue"@, sfield("Fixed"@, JsonV::Fixed(i32_at(t, p + 8)), off + 8, 4)),
            ("maxValue"@, sfield("Fixed"@, JsonV::Fixed(i32_at(t, p + 12)), off + 12, 4)),
            (
                "flags"@,
                if flags % 2 == 1 {
                    sfield_sum("uint16"@, JsonV::Num(flags), off + 16, 2, "Hidden axis"@)
                } else {
                    sfield("uint16"@, JsonV::Num(flags), off + 16, 2)
                },
            ),
            ("axisNameID"@, name_id_value(u16_at(t, p + 18) as u16, off + 18, 2)),
        ],
    )
}

/// An axis record shows its fields in the order of the fvar layout, each read
/// at its offset in the record's slot: the tag at 0, the minimum at 4, the
/// default at 8, the maximum at 12, the flags at 16 and the name at 18.
pub proof fn axis_record_fields_read_their_bytes(t: Seq<u8>, i: int, off: int)
    ensures
        ({
            let p = arrays_offset(t) + 20 * i;
            let e = axis_value(t, i, off)->Obj_0;
            &&& e.len() == 6
            &&& e[0] == ("axisTag"@, sfield("Tag"@, JsonV::Str(tag_text(t.subrange(p, p + 4))), off, 4))
            &&& e[1] == ("minValue"@, sfield("Fixed"@, JsonV::Fixed(i32_at(t, p + 4)), off + 4, 4))
            &&& e[2] == ("defaultValue"@, sfield("Fixed"@, JsonV::Fixed(i32_at(t, p + 8)), off + 8, 4))
            &&& e[3] == ("maxValue"@, sfield("Fixed"@, JsonV::Fixed(i32_at(t, p + 12)), off + 12, 4))
            &&& e[4].0 == "flags"@
            &&& e[4].1->Obj_0[1].1 == JsonV::Num(u16_at(t, p + 16))
            &&& e[4].1->Obj_0[2].1 == JsonV::Num(off + 16)
            &&& e[5] == ("axisNameID"@, name_id_value(u16_at(t, p + 18) as u16, off + 18, 2))
        }),
{
}

/// The name a coordinate is shown with: its axis's tag, or `Axis j` where
/// there is no such axis record.
pub open spec fn coordinate_name(t: Seq<u8>, j: int) -> Seq<char> {
    if j < axes_read(t) {
        let p = arrays_offset(t) + 20 * j;
        tag_text(t.subrange(p, p + 4))
    } else {
        "Axis "@ + dec(j as nat, 1)
    }
}

pub open spec fn coordinate_value(t: Seq<u8>, p: int, j: int, off: int) -> JsonV {
    JsonV::Obj(
        seq![
            ("type"@, JsonV::Str("Fixed"@)),
            ("name"@, JsonV::Str(coordinate_name(t, j))),
            ("value"@, JsonV::Fixed(i32_at(t, p + 4 + 4 * j))),
            ("offset"@, JsonV::Num(off + 4 + 4 * j)),
            ("length"@, JsonV::Num(4)),
        ],
    )
}

/// Instance record `i`, shown at `off`.
pub open spec fn instance_value(t: Seq<u8>, i: int, off: int) -> JsonV {
    let ac = axis_count(t);
    let is = instance_size(t);
    let p = arrays_offset(t) + 20 * ac + i * is;
    let ps = u16_at(t, p + 4 + 4 * ac);
    let tail: Seq<(Seq<char>, JsonV)> = if is >= 4 + 4 * ac + 2 {
        seq![
            (
                "postScriptNameID"@,
                sfield("uint16"@, if ps == 0xFFFF { JsonV::Null } else { JsonV::Num(ps) }, off + 4 + 4 * ac, 2),
            ),
        ]
    } else {
        seq![]
    };
    JsonV::Obj(
        seq![
            ("subfamilyNameID"@, name_id_value(u16_at(t, p) as u16, off, 2)),
            ("flags"@, sfield("uint16"@, JsonV::Num(u16_at(t, p + 2)), off + 2, 2)),
            (
                "coordinates"@,
                sfield(
                    "Fixed[]"@,
                    JsonV::Arr(Seq::new(ac as nat, |j: int| coordinate_value(t, p, j, off))),
                    off + 4,
                    4 * ac,
                ),
            ),
        ] + tail,
    )
}

/// An instance record shows its subfamily name at 0, its flags at 2 and then
/// one coordinate per axis, coordinate `j` read at `4 + 4 * j` of the record.
pub proof fn instance_record_fields_read_their_bytes(t: Seq<u8>, i: int, off: int)
    ensures
        ({
            let ac = axis_count(t);
            let p = arrays_offset(t) + 20 * ac + i * instance_size(t);
            let e = instance_value(t, i, off)->Obj_0;
            let coords = e[2].1->Obj_0[1].1->Arr_0;
            &&& e[0] == ("subfamilyNameID"@, name_id_value(u16_at(t, p) as u16, off, 2))
            &&& e[1] == ("flags"@, sfield("uint16"@, JsonV::Num(u16_at(t, p + 2)), off + 2, 2))
            &&& e[2].0 == "coordinates"@
            &&& coords.len() == ac
            &&& forall|j: int| 0 <= j < ac ==> (#[trigger] coords[j])->Obj_0[2].1 == JsonV::Fixed(i32_at(t, p + 4 + 4 * j))
                && coords[j]->Obj_0[3].1 == JsonV::Num(off + 4 + 4 * j)
        }),
{
}

/// The font variations table, described: its header, its axis records
/// (shown at steps of the stated axis size) and its named instances.
pub open spec fn spec_parse_table(t: Seq<u8>) -> Result<JsonV, Seq<char>> {
    match fvar_error(t) {
        Some(e) => Err(e),
        None => {
            let ao = arrays_offset(t);
            let ac = axis_count(t);
            let asz = axis_size(t);
            let ic = instance_count(t);
            let is = instance_size(t);
            let na = axes_read(t);
            Ok(
                JsonV::Obj(
                    seq![
                        ("majorVersion"@, sfield("uint16"@, JsonV::Num(u16_at(t, 0)), 0, 2)),
                        ("minorVersion"@, sfield("uint16"@, JsonV::Num(u16_at(t, 2)), 2, 2)),
                        ("axesArrayOffset"@, sfield("Offset16"@, JsonV::Num(ao), 4, 2)),
                        ("reserved"@, sfield("uint16"@, JsonV::Num(u16_at(t, 6)), 6, 2)),
                        ("axisCount"@, sfield("uint16"@, JsonV::Num(ac), 8, 2)),
                        ("axisSize"@, sfield("uint16"@, JsonV::Num(asz), 10, 2)),
                        ("instanceCount"@, sfield("uint16"@, JsonV::Num(ic), 12, 2)),
                        ("instanceSize"@, sfield("uint16"@, JsonV::Num(is), 14, 2)),
                        (
                            "axes"@,
                            sfield(
                                "VariationAxisRecord[]"@,
                                JsonV::Arr(Seq::new(na as nat, |i: int| axis_value(t, i, ao + i * asz))),
                                ao,
                                na * asz,
                            ),
                        ),
                        (
                            "instances"@,
                            sfield(
                                "InstanceRecord[]"@,
                                JsonV::Arr(Seq::new(ic as nat, |i: int| instance_value(t, i, ao + ac * asz + i * is))),
                                ao + ac * asz,
                                ic * is,
                            ),
                        ),
                    ],
                ),
            )
        },
    }
}

/// The header of a font variations table shows its eight 16-bit fields in
/// the order they are stored, field `k` read at offset `2 * k`: the major and
/// minor versions, the offset of the arrays, a reserved field, then the axis
/// count, the axis size, the instance count and the instance size.
pub proof fn fvar_header_follows_the_record(t: Seq<u8>, k: int)
    requires
        spec_parse_table(t) is Ok,
        0 <= k < 8,
    ensures
        ({
            let e = spec_parse_table(t)->Ok_0->Obj_0;
            let names = seq!["majorVersion"@, "minorVersion"@, "axesArrayOffset"@, "reserved"@,
                "axisCount"@, "axisSize"@, "instanceCount"@, "instanceSize"@];
            &&& e[k].0 == names[k]
            &&& e[k].1->Obj_0[1].1 == JsonV::Num(u16_at(t, 2 * k))
            &&& e[k].1->Obj_0[2].1 == JsonV::Num(2 * k)
            &&& e[k].1->Obj_0[3].1 == JsonV::Num(2)
        }),
{
}

} // verus!

verus! {

/// Describes axis record `i`, shown at `off`.
pub fn parse_axis(t: &[u8], i: usize, off: u64) -> (r: Json)
    requires
        arrays_offset(t@) + 20 * i + 20 <= t@.len(),
        small_len(t@.len() as int),
        off <= 0x1_0000_0000_0000,
    ensures
        r.jv() == axis_value(t@, i as int, off as int),
{
    let p = be_u16(t, 4) as usize + 20 * i;
    let flags = be_u16(t, p + 16);
    let mut o = new_obj();
    push_entry(&mut o, "axisTag", parsed_field_wide("Tag", Json::Str(tag_string(t, p)), off, 4));
    push_entry(&mut o, "minValue", parsed_field_wide("Fixed", Json::Fixed(be_i32(t, p + 4)), off + 4, 4));
    push_entry(&mut o, "defaultValue", parsed_field_wide("Fixed", Json::Fixed(be_i32(t, p + 8)), off + 8, 4));
    push_entry(&mut o, "maxValue", parsed_field_wide("Fixed", Json::Fixed(be_i32(t, p + 12)), off + 12, 4));
    let mut fl = parsed_field_wide("uint16", jnum(flags as u64), off + 16, 2);
    if flags & 1 != 0 {
        assert(flags & 1 != 0 <==> flags % 2 == 1) by (bit_vector);
        let ghost fv = fl.jv();
        fl = crate::json::with_summary(fl, text("Hidden axis"));
        assert(fv->Obj_0.push(("summary"@, JsonV::Str("Hidden axis"@))) =~= sfield_sum(
            "uint16"@,
            JsonV::Num(flags as int),
            off + 16,
            2,
            "Hidden axis"@,
        )->Obj_0);
    } else {
        assert(flags & 1 == 0 <==> flags % 2 == 0) by (bit_vector);
    }
    push_entry(&mut o, "flags", fl);
    push_entry(&mut o, "axisNameID", name_id_field(be_u16(t, p + 18), off + 18, 2));
    assert(jv_entries(o@) =~= axis_value(t@, i as int, off as int)->Obj_0);
    jobj(o)
}

fn coordinate_name_string(t: &[u8], j: usize, na: usize) -> (r: String)
    requires
        na == axes_read(t@),
        t@.len() >= 16,
        small_len(t@.len() as int),
    ensures
        r@ == coordinate_name(t@, j as int),
{
    if j < na {
        tag_string(t, be_u16(t, 4) as usize + 20 * j)
    } else {
        let mut s = text("Axis ");
        let d = dec_string(j as u64, 1);
        s.append(d.as_str());
        s
    }
}

/// Describes instance record `i`, shown at `off`.
pub fn parse_instance(t: &[u8], i: usize, off: u64) -> (r: Json)
    requires
        t@.len() >= 16,
        i < instance_count(t@),
        instances_readable(t@),
        small_len(t@.len() as int),
        off <= 0x1_0000_0000_0000,
    ensures
        r.jv() == instance_value(t@, i as int, off as int),
{
    let ao = be_u16(t, 4) as usize;
    let ac = be_u16(t, 8) as usize;
    let is = be_u16(t, 14) as usize;
    let ic = be_u16(t, 12) as usize;
    assert(i * is + is <= ic * is) by (nonlinear_arith)
        requires i < ic, is >= 0;
    let p = ao + 20 * ac + i * is;
    let na: usize = if ao + 20 * ac <= t.len() { ac } else { 0 };
    let mut o = new_obj();
    push_entry(&mut o, "subfamilyNameID", name_id_field(be_u16(t, p), off, 2));
    push_entry(&mut o, "flags", parsed_field_wide("uint16", jnum(be_u16(t, p + 2) as u64), off + 2, 2));
    let ghost want = Seq::new(ac as nat, |j: int| coordinate_value(t@, p as int, j, off as int));
    let mut coords = new_arr();
    let mut j: usize = 0;
    while j < ac
        invariant
            j <= ac,
            ac == axis_count(t@),
            na == axes_read(t@),
            p + 4 + 4 * ac <= t@.len(),
            t@.len() >= 16,
            small_len(t@.len() as int),
            off <= 0x1_0000_0000_0000,
            want == Seq::new(ac as nat, |j: int| coordinate_value(t@, p as int, j, off as int)),
            jv_seq(coords@) == want.take(j as int),
        decreases ac - j,
    {
        let mut c = new_obj();
        push_entry(&mut c, "type", Json::Str(text("Fixed")));
        push_entry(&mut c, "name", Json::Str(coordinate_name_string(t, j, na)));
        push_entry(&mut c, "value", Json::Fixed(be_i32(t, p + 4 + 4 * j)));
        push_entry(&mut c, "offset", jnum(off + 4 + 4 * (j as u64)));
        push_entry(&mut c, "length", jnum(4));
        assert(jv_entries(c@) =~= want[j as int]->Obj_0);
        push_item(&mut coords, jobj(c));
        assert(want.take(j + 1) =~= want.take(j as int).push(want[j as int]));
        j = j + 1;
    }
    assert(want.take(ac as int) =~= want);
    push_entry(&mut o, "coordinates", parsed_field_wide("Fixed[]", jarr(coords), off + 4, 4 * (ac as u64)));
    if is >= 4 + 4 * ac + 2 {
        let ps = be_u16(t, p + 4 + 4 * ac);
        let v = if ps == 0xFFFF { Json::Null } else { jnum(ps as u64) };
        push_entry(&mut o, "postScriptNameID", parsed_field_wide("uint16", v, off + 4 + 4 * (ac as u64), 2));
    }
    assert(jv_entries(o@) =~= instance_value(t@, i as int, off as int)->Obj_0);
    jobj(o)
}

/// The font variations table, described.
pub fn parse_table(t: &[u8]) -> (r: Result<Json, String>)
    requires
        small_len(t@.len() as int),
    ensures
        parsed_view(r) == spec_parse_table(t@),
{
    if t.len() < 16 {
        return Err(text("An offset was out of bounds"));
    }
    let ao = be_u16(t, 4) as usize;
    if ao == 0 {
        return Err(text("An offset was unexpectedly null"));
    }
    if ao > t.len() {
        return Err(text("An offset was out of bounds"));
    }
    let ac = be_u16(t, 8);
    let asz = be_u16(t, 10);
    let ic = be_u16(t, 12);
    let is = be_u16(t, 14);
    assert((ic as u64) * (is as u64) <= 0xFFFF * 0xFFFF) by (nonlinear_arith)
        requires ic <= 0xFFFF, is <= 0xFFFF;
    let readable = ic == 0 || (is > 0 && (ao as u64) + 20 * (ac as u64) + (ic as u64) * (is as u64) <= t.len() as u64
        && 4 + 4 * (ac as u64) <= is as u64);
    if !readable {
        return Err(text("An offset was out of bounds"));
    }
    let na: usize = if ao + 20 * (ac as usize) <= t.len() { ac as usize } else { 0 };
    let ghost want_a = Seq::new(na as nat, |i: int| axis_value(t@, i, ao + i * asz));
    let mut axes = new_arr();
    let mut i: usize = 0;
    while i < na
        invariant
            i <= na,
            na == axes_read(t@),
            ao == arrays_offset(t@),
            asz == axis_size(t@),
            t@.len() >= 16,
            small_len(t@.len() as int),
            want_a == Seq::new(na as nat, |i: int| axis_value(t@, i, ao + i * asz)),
            jv_seq(axes@) == want_a.take(i as int),
        decreases na - i,
    {
        assert(i * asz <= 0xFFFF * 0xFFFF) by (nonlinear_arith)
            requires i <= 0xFFFF, asz <= 0xFFFF;
        push_item(&mut axes, parse_axis(t, i, (ao as u64) + (i as u64) * (asz as u64)));
        assert(want_a.take(i + 1) =~= want_a.take(i as int).push(want_a[i as int]));
        i = i + 1;
    }
    assert(want_a.take(na as int) =~= want_a);
    assert((ac as u64) * (asz as u64) <= 0xFFFF * 0xFFFF) by (nonlinear_arith)
        requires ac <= 0xFFFF, asz <= 0xFFFF;
    let inst_start: u64 = (ao as u64) + (ac as u64) * (asz as u64);
    let ghost want_i = Seq::new(ic as nat, |i: int| instance_value(t@, i, inst_start + i * is));
    let mut instances = new_arr();
    let mut k: usize = 0;
    while k < ic as usize
        invariant
            k <= ic,
            ic == instance_count(t@),
            is == instance_size(t@),
            instances_readable(t@),
            t@.len() >= 16,
            small_len(t@.len() as int),
            inst_start <= 0xFFFF + 0xFFFF * 0xFFFF,
            want_i == Seq::new(ic as nat, |i: int| instance_value(t@, i, inst_start + i * is)),
            jv_seq(instances@) == want_i.take(k as int),
        decreases ic - k,
    {
        assert(k * is <= 0xFFFF * 0xFFFF) by (nonlinear_arith)
            requires k <= 0xFFFF, is <= 0xFFFF;
        push_item(&mut instances, parse_instance(t, k, inst_start + (k as u64) * (is as u64)));
        assert(want_i.take(k + 1) =~= want_i.take(k as int).push(want_i[k as int]));
        k = k + 1;
    }
    assert(want_i.take(ic as int) =~= want_i);
    let mut o = new_obj();
    push_entry(&mut o, "majorVersion", parsed_field("uint16", jnum(be_u16(t, 0) as u64), 0, 2));
    push_entry(&mut o, "minorVersion", parsed_field("uint16", jnum(be_u16(t, 2) as u64), 2, 2));
    push_entry(&mut o, "axesArrayOffset", parsed_field("Offset16", jnum(ao as u64), 4, 2));
    push_entry(&mut o, "reserved", parsed_field("uint16", jnum(be_u16(t, 6) as u64), 6, 2));
    push_entry(&mut o, "axisCount", parsed_field("uint16", jnum(ac as u64), 8, 2));
    push_entry(&mut o, "axisSize", parsed_field("uint16", jnum(asz as u64), 10, 2));
    push_entry(&mut o, "instanceCount", parsed_field("uint16", jnum(ic as u64), 12, 2));
    push_entry(&mut o, "instanceSize", parsed_field("uint16", jnum(is as u64), 14, 2));
    assert((na as u64) * (asz as u64) <= 0xFFFF * 0xFFFF) by (nonlinear_arith)
        requires na <= 0xFFFF, asz <= 0xFFFF;
    assert((ic as u64) * (is as u64) <= 0xFFFF * 0xFFFF) by (nonlinear_arith)
        requires ic <= 0xFFFF, is <= 0xFFFF;
    push_entry(&mut o, "axes", parsed_field_wide("VariationAxisRecord[]", jarr(axes), ao as u64, (na as u64) * (asz as u64)));
    push_entry(&mut o, "instances", parsed_field_wide("InstanceRecord[]", jarr(instances), inst_start, (ic as u64) * (is as u64)));
    assert(jv_entries(o@) =~= spec_parse_table(t@)->Ok_0->Obj_0);
    Ok(jobj(o))
}

pub open spec fn table_tag() -> Seq<u8> {
    seq![102u8, 118u8, 97u8, 114u8]
}

/// The `fvar` table of a font, described.
pub open spec fn spec_parse(font: Seq<u8>) -> Result<JsonV, Seq<char>> {
    match spec_load(font, table_tag()) {
        Err(e) => Err(e),
        Ok(t) => spec_parse_table(t),
    }
}

/// Describes the `fvar` table of a font.
pub fn parse(font: &[u8]) -> (r: Result<Json, String>)
    requires
        small_len(font@.len() as int),
    ensures
        parsed_view(r) == spec_parse(font@),
{
    let tag: Vec<u8> = vec![102u8, 118u8, 97u8, 114u8];
    assert(tag@ =~= table_tag());
    match load_table(font, tag.as_slice()) {
        Err(e) => Err(e),
        Ok(t) => parse_table(t.as_slice()),
    }
}

} // verus!
