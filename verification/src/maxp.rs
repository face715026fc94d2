use vstd::prelude::*;
use crate::json::{jobj, jv_entries, new_obj, text, Json, JsonV, parsed_view, sfield};
use crate::layout::{items_view, kind_value, layout_fields, read_layout, Cond, Item, Kind};
use crate::font::{load_table, out_of_bounds, spec_load};
use crate::reader::small_len;

verus! {

/// The fields of the maximum profile; those after numGlyphs belong to version 1.x.
pub open spec fn maxp_layout() -> Seq<(Seq<char>, Seq<char>, Kind, Cond)> {
    seq![
        ("version"@, "Version16Dot16"@, Kind::Version16Dot16, Cond::Always),
        ("numGlyphs"@, "uint16"@, Kind::U16, Cond::Always),
        ("maxPoints"@, "uint16"@, Kind::U16, Cond::MajorIs(1)),
        ("maxContours"@, "uint16"@, Kind::U16, Cond::MajorIs(1)),
        ("maxCompositePoints"@, "uint16"@, Kind::U16, Cond::MajorIs(1)),
        ("maxCompositeContours"@, "uint16"@, Kind::U16, Cond::MajorIs(1)),
        ("maxZones"@, "uint16"@, Kind::U16, Cond::MajorIs(1)),
        ("maxTwilightPoints"@, "uint16"@, Kind::U16, Cond::MajorIs(1)),
        ("maxStorage"@, "uint16"@, Kind::U16, Cond::MajorIs(1)),
        ("maxFunctionDefs"@, "uint16"@, Kind::U16, Cond::MajorIs(1)),
        ("maxInstructionDefs"@, "uint16"@, Kind::U16, Cond::MajorIs(1)),
        ("maxStackElements"@, "uint16"@, Kind::U16, Cond::MajorIs(1)),
        ("maxSizeOfInstructions"@, "uint16"@, Kind::U16, Cond::MajorIs(1)),
        ("maxComponentElements"@, "uint16"@, Kind::U16, Cond::MajorIs(1)),
        ("maxComponentDepth"@, "uint16"@, Kind::U16, Cond::MajorIs(1)),
    ]
}

fn maxp_layout_items() -> (r: Vec<Item>)
    ensures
        items_view(r@) == maxp_layout(),
{
    let v: Vec<Item> = vec![
        Item { key: "version", ty: "Version16Dot16", kind: Kind::Version16Dot16, cond: Cond::Always },
        Item { key: "numGlyphs", ty: "uint16", kind: Kind::U16, cond: Cond::Always },
        Item { key: "maxPoints", ty: "uint16", kind: Kind::U16, cond: Cond::MajorIs(1) },
        Item { key: "maxContours", ty: "uint16", kind: Kind::U16, cond: Cond::MajorIs(1) },
        Item { key: "maxCompositePoints", ty: "uint16", kind: Kind::U16, cond: Cond::MajorIs(1) },
        Item { key: "maxCompositeContours", ty: "uint16", kind: Kind::U16, cond: Cond::MajorIs(1) },
        Item { key: "maxZones", ty: "uint16", kind: Kind::U16, cond: Cond::MajorIs(1) },
        Item { key: "maxTwilightPoints", ty: "uint16", kind: Kind::U16, cond: Cond::MajorIs(1) },
        Item { key: "maxStorage", ty: "uint16", kind: Kind::U16, cond: Cond::MajorIs(1) },
        Item { key: "maxFunctionDefs", ty: "uint16", kind: Kind::U16, cond: Cond::MajorIs(1) },
        Item { key: "maxInstructionDefs", ty: "uint16", kind: Kind::U16, cond: Cond::MajorIs(1) },
        Item { key: "maxStackElements", ty: "uint16", kind: Kind::U16, cond: Cond::MajorIs(1) },
        Item { key: "maxSizeOfInstructions", ty: "uint16", kind: Kind::U16, cond: Cond::MajorIs(1) },
        Item { key: "maxComponentElements", ty: "uint16", kind: Kind::U16, cond: Cond::MajorIs(1) },
        Item { key: "maxComponentDepth", ty: "uint16", kind: Kind::U16, cond: Cond::MajorIs(1) },
    ];
    assert(items_view(v@) =~= maxp_layout());
    v
}

/// The maximum profile, described field by field; a version-1 field past the end of the data is left out.
pub open spec fn spec_parse_table(t: Seq<u8>) -> Result<JsonV, Seq<char>> {
    if t.len() < 6 {
        Err(out_of_bounds())
    } else {
        Ok(JsonV::Obj(layout_fields(t, maxp_layout(), 0, 0)))
    }
}

/// Every field of a version 1.0 maximum profile stands in the order of the
/// OpenType record, under its own name, read at its offset: the version at 0,
/// numGlyphs at 4, maxPoints at 6, and so on to maxComponentDepth at 30.
pub proof fn maxp_version_1_fields_follow_the_record(t: Seq<u8>)
    requires
        crate::reader::u16_at(t, 0) == 1,
        t.len() >= 32,
    ensures
        spec_parse_table(t) is Ok,
        ({
            let e = spec_parse_table(t)->Ok_0->Obj_0;
            &&& e.len() >= 15
            &&& e[0] == ("version"@, sfield("Version16Dot16"@, kind_value(t, 0, Kind::Version16Dot16), 0, 4))
            &&& e[1] == ("numGlyphs"@, sfield("uint16"@, kind_value(t, 4, Kind::U16), 4, 2))
            &&& e[2] == ("maxPoints"@, sfield("uint16"@, kind_value(t, 6, Kind::U16), 6, 2))
            &&& e[3] == ("maxContours"@, sfield("uint16"@, kind_value(t, 8, Kind::U16), 8, 2))
            &&& e[4] == ("maxCompositePoints"@, sfield("uint16"@, kind_value(t, 10, Kind::U16), 10, 2))
            &&& e[5] == ("maxCompositeContours"@, sfield("uint16"@, kind_value(t, 12, Kind::U16), 12, 2))
            &&& e[6] == ("maxZones"@, sfield("uint16"@, kind_value(t, 14, Kind::U16), 14, 2))
            &&& e[7] == ("maxTwilightPoints"@, sfield("uint16"@, kind_value(t, 16, Kind::U16), 16, 2))
            &&& e[8] == ("maxStorage"@, sfield("uint16"@, kind_value(t, 18, Kind::U16), 18, 2))
            &&& e[9] == ("maxFunctionDefs"@, sfield("uint16"@, kind_value(t, 20, Kind::U16), 20, 2))
            &&& e[10] == ("maxInstructionDefs"@, sfield("uint16"@, kind_value(t, 22, Kind::U16), 22, 2))
            &&& e[11] == ("maxStackElements"@, sfield("uint16"@, kind_value(t, 24, Kind::U16), 24, 2))
            &&& e[12] == ("maxSizeOfInstructions"@, sfield("uint16"@, kind_value(t, 26, Kind::U16), 26, 2))
            &&& e[13] == ("maxComponentElements"@, sfield("uint16"@, kind_value(t, 28, Kind::U16), 28, 2))
            &&& e[14] == ("maxComponentDepth"@, sfield("uint16"@, kind_value(t, 30, Kind::U16), 30, 2))
        }),
{
    let l = maxp_layout();
    reveal_with_fuel(crate::layout::prefix_applies, 16);
    reveal_with_fuel(crate::layout::size_before, 16);
    assert(crate::layout::prefix_applies(t, l, 0, 15));
    assert(crate::layout::size_before(l, 0, 15) == 32);
    crate::layout::layout_fields_in_order(t, l, 0, 0, 15);
}

/// The version and the glyph count of the maximum profile stand at 0 and 4.
pub proof fn maxp_fields_follow_the_record(t: Seq<u8>)
    requires
        t.len() >= 6,
    ensures
        spec_parse_table(t) is Ok,
        ({
            let e = spec_parse_table(t)->Ok_0->Obj_0;
            &&& e.len() >= 2
            &&& e[0] == ("version"@, sfield("Version16Dot16"@, kind_value(t, 0, Kind::Version16Dot16), 0, 4))
            &&& e[1] == ("numGlyphs"@, sfield("uint16"@, kind_value(t, 4, Kind::U16), 4, 2))
        }),
{
    let l = maxp_layout();
    reveal_with_fuel(crate::layout::prefix_applies, 3);
    reveal_with_fuel(crate::layout::size_before, 3);
    assert(crate::layout::prefix_applies(t, l, 0, 2));
    assert(crate::layout::size_before(l, 0, 2) == 6);
    crate::layout::layout_fields_in_order(t, l, 0, 0, 2);
}

/// The maximum profile, described field by field; a version-1 field past the end of the data is left out.
pub fn parse_table(t: &[u8]) -> (r: Result<Json, String>)
    requires
        small_len(t@.len() as int),
    ensures
        parsed_view(r) == spec_parse_table(t@),
{
    if t.len() < 6 {
        return Err(text("An offset was out of bounds"));
    }
    let items = maxp_layout_items();
    let mut o = new_obj();
    read_layout(t, &items, 0, &mut o);
    assert(jv_entries(o@) =~= layout_fields(t@, maxp_layout(), 0, 0));
    Ok(jobj(o))
}

/// The tag of this table.
pub open spec fn table_tag() -> Seq<u8> {
    seq![109u8, 97u8, 120u8, 112u8]
}

/// The `maxp` table of a font, described field by field.
pub open spec fn spec_parse(font: Seq<u8>) -> Result<JsonV, Seq<char>> {
    match spec_load(font, table_tag()) {
        Err(e) => Err(e),
        Ok(t) => spec_parse_table(t),
    }
}

/// Describes the `maxp` table of a font.
pub fn parse(font: &[u8]) -> (r: Result<Json, String>)
    requires
        small_len(font@.len() as int),
    ensures
        parsed_view(r) == spec_parse(font@),
{
    let tag: Vec<u8> = vec![109u8, 97u8, 120u8, 112u8];
    assert(tag@ =~= table_tag());
    match load_table(font, tag.as_slice()) {
        Err(e) => Err(e),
        Ok(t) => parse_table(t.as_slice()),
    }
}

} // verus!
