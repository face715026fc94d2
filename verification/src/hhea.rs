use vstd::prelude::*;
use crate::json::{jobj, jv_entries, new_obj, text, Json, JsonV, parsed_view, sfield};
use crate::layout::{items_view, kind_value, layout_fields, read_layout, Cond, Item, Kind};
use crate::font::{load_table, out_of_bounds, spec_load};
use crate::reader::small_len;

verus! {

/// The fields of the horizontal header, in order.
pub open spec fn hhea_layout() -> Seq<(Seq<char>, Seq<char>, Kind, Cond)> {
    seq![
        ("majorVersion"@, "uint16"@, Kind::U16, Cond::Always),
        ("minorVersion"@, "uint16"@, Kind::U16, Cond::Always),
        ("ascender"@, "FWORD"@, Kind::I16, Cond::Always),
        ("descender"@, "FWORD"@, Kind::I16, Cond::Always),
        ("lineGap"@, "FWORD"@, Kind::I16, Cond::Always),
        ("advanceWidthMax"@, "UFWORD"@, Kind::U16, Cond::Always),
        ("minLeftSideBearing"@, "FWORD"@, Kind::I16, Cond::Always),
        ("minRightSideBearing"@, "FWORD"@, Kind::I16, Cond::Always),
        ("xMaxExtent"@, "FWORD"@, Kind::I16, Cond::Always),
        ("caretSlopeRise"@, "int16"@, Kind::I16, Cond::Always),
        ("caretSlopeRun"@, "int16"@, Kind::I16, Cond::Always),
        ("caretOffset"@, "int16"@, Kind::I16, Cond::Always),
        ("reserved0"@, "int16"@, Kind::Zero16, Cond::Always),
        ("reserved1"@, "int16"@, Kind::Zero16, Cond::Always),
        ("reserved2"@, "int16"@, Kind::Zero16, Cond::Always),
        ("reserved3"@, "int16"@, Kind::Zero16, Cond::Always),
        ("metricDataFormat"@, "int16"@, Kind::I16, Cond::Always),
        ("numberOfHMetrics"@, "uint16"@, Kind::U16, Cond::Always),
    ]
}

fn hhea_layout_items() -> (r: Vec<Item>)
    ensures
        items_view(r@) == hhea_layout(),
{
    let v: Vec<Item> = vec![
        Item { key: "majorVersion", ty: "uint16", kind: Kind::U16, cond: Cond::Always },
        Item { key: "minorVersion", ty: "uint16", kind: Kind::U16, cond: Cond::Always },
        Item { key: "ascender", ty: "FWORD", kind: Kind::I16, cond: Cond::Always },
        Item { key: "descender", ty: "FWORD", kind: Kind::I16, cond: Cond::Always },
        Item { key: "lineGap", ty: "FWORD", kind: Kind::I16, cond: Cond::Always },
        Item { key: "advanceWidthMax", ty: "UFWORD", kind: Kind::U16, cond: Cond::Always },
        Item { key: "minLeftSideBearing", ty: "FWORD", kind: Kind::I16, cond: Cond::Always },
        Item { key: "minRightSideBearing", ty: "FWORD", kind: Kind::I16, cond: Cond::Always },
        Item { key: "xMaxExtent", ty: "FWORD", kind: Kind::I16, cond: Cond::Always },
        Item { key: "caretSlopeRise", ty: "int16", kind: Kind::I16, cond: Cond::Always },
        Item { key: "caretSlopeRun", ty: "int16", kind: Kind::I16, cond: Cond::Always },
        Item { key: "caretOffset", ty: "int16", kind: Kind::I16, cond: Cond::Always },
        Item { key: "reserved0", ty: "int16", kind: Kind::Zero16, cond: Cond::Always },
        Item { key: "reserved1", ty: "int16", kind: Kind::Zero16, cond: Cond::Always },
        Item { key: "reserved2", ty: "int16", kind: Kind::Zero16, cond: Cond::Always },
        Item { key: "reserved3", ty: "int16", kind: Kind::Zero16, cond: Cond::Always },
        Item { key: "metricDataFormat", ty: "int16", kind: Kind::I16, cond: Cond::Always },
        Item { key: "numberOfHMetrics", ty: "uint16", kind: Kind::U16, cond: Cond::Always },
    ];
    assert(items_view(v@) =~= hhea_layout());
    v
}

/// The horizontal header table, described field by field; tables shorter than the header are refused.
pub open spec fn spec_parse_table(t: Seq<u8>) -> Result<JsonV, Seq<char>> {
    if t.len() < 36 {
        Err(out_of_bounds())
    } else {
        Ok(JsonV::Obj(layout_fields(t, hhea_layout(), 0, 0)))
    }
}

/// Every field of the horizontal header stands in the order of the OpenType
/// record, under its own name, read at its offset: the versions at 0 and 2,
/// ascender, descender and lineGap at 4, 6 and 8, and so on to
/// numberOfHMetrics at 34.
pub proof fn hhea_fields_follow_the_record(t: Seq<u8>)
    requires
        t.len() >= 36,
    ensures
        spec_parse_table(t) is Ok,
        ({
            let e = spec_parse_table(t)->Ok_0->Obj_0;
            &&& e.len() >= 18
            &&& e[0] == ("majorVersion"@, sfield("uint16"@, kind_value(t, 0, Kind::U16), 0, 2))
            &&& e[1] == ("minorVersion"@, sfield("uint16"@, kind_value(t, 2, Kind::U16), 2, 2))
            &&& e[2] == ("ascender"@, sfield("FWORD"@, kind_value(t, 4, Kind::I16), 4, 2))
            &&& e[3] == ("descender"@, sfield("FWORD"@, kind_value(t, 6, Kind::I16), 6, 2))
            &&& e[4] == ("lineGap"@, sfield("FWORD"@, kind_value(t, 8, Kind::I16), 8, 2))
            &&& e[5] == ("advanceWidthMax"@, sfield("UFWORD"@, kind_value(t, 10, Kind::U16), 10, 2))
            &&& e[6] == ("minLeftSideBearing"@, sfield("FWORD"@, kind_value(t, 12, Kind::I16), 12, 2))
            &&& e[7] == ("minRightSideBearing"@, sfield("FWORD"@, kind_value(t, 14, Kind::I16), 14, 2))
            &&& e[8] == ("xMaxExtent"@, sfield("FWORD"@, kind_value(t, 16, Kind::I16), 16, 2))
            &&& e[9] == ("caretSlopeRise"@, sfield("int16"@, kind_value(t, 18, Kind::I16), 18, 2))
            &&& e[10] == ("caretSlopeRun"@, sfield("int16"@, kind_value(t, 20, Kind::I16), 20, 2))
            &&& e[11] == ("caretOffset"@, sfield("int16"@, kind_value(t, 22, Kind::I16), 22, 2))
            &&& e[12] == ("reserved0"@, sfield("int16"@, kind_value(t, 24, Kind::Zero16), 24, 2))
            &&& e[13] == ("reserved1"@, sfield("int16"@, kind_value(t, 26, Kind::Zero16), 26, 2))
            &&& e[14] == ("reserved2"@, sfield("int16"@, kind_value(t, 28, Kind::Zero16), 28, 2))
            &&& e[15] == ("reserved3"@, sfield("int16"@, kind_value(t, 30, Kind::Zero16), 30, 2))
            &&& e[16] == ("metricDataFormat"@, sfield("int16"@, kind_value(t, 32, Kind::I16), 32, 2))
            &&& e[17] == ("numberOfHMetrics"@, sfield("uint16"@, kind_value(t, 34, Kind::U16), 34, 2))
        }),
{
    let l = hhea_layout();
    reveal_with_fuel(crate::layout::prefix_applies, 19);
    reveal_with_fuel(crate::layout::size_before, 19);
    assert(crate::layout::prefix_applies(t, l, 0, 18));
    assert(crate::layout::size_before(l, 0, 18) == 36);
    crate::layout::layout_fields_in_order(t, l, 0, 0, 18);
}

/// The horizontal header table, described field by field; tables shorter than the header are refused.
pub fn parse_table(t: &[u8]) -> (r: Result<Json, String>)
    requires
        small_len(t@.len() as int),
    ensures
        parsed_view(r) == spec_parse_table(t@),
{
    if t.len() < 36 {
        return Err(text("An offset was out of bounds"));
    }
    let items = hhea_layout_items();
    let mut o = new_obj();
    read_layout(t, &items, 0, &mut o);
    assert(jv_entries(o@) =~= layout_fields(t@, hhea_layout(), 0, 0));
    Ok(jobj(o))
}

/// The tag of this table.
pub open spec fn table_tag() -> Seq<u8> {
    seq![104u8, 104u8, 101u8, 97u8]
}

/// The `hhea` table of a font, described field by field.
pub open spec fn spec_parse(font: Seq<u8>) -> Result<JsonV, Seq<char>> {
    match spec_load(font, table_tag()) {
        Err(e) => Err(e),
        Ok(t) => spec_parse_table(t),
    }
}

/// Describes the `hhea` table of a font.
pub fn parse(font: &[u8]) -> (r: Result<Json, String>)
    requires
        small_len(font@.len() as int),
    ensures
        parsed_view(r) == spec_parse(font@),
{
    let tag: Vec<u8> = vec![104u8, 104u8, 101u8, 97u8];
    assert(tag@ =~= table_tag());
    match load_table(font, tag.as_slice()) {
        Err(e) => Err(e),
        Ok(t) => parse_table(t.as_slice()),
    }
}

} // verus!
