use vstd::prelude::*;
use crate::json::{jobj, jv_entries, new_obj, text, Json, JsonV, parsed_view, sfield};
use crate::layout::{items_view, kind_value, layout_fields, read_layout, Cond, Item, Kind};
use crate::font::{load_table, out_of_bounds, spec_load};
use crate::reader::{be_u16, small_len, u16_at};

verus! {

/// The fields of the vertical header before version 1.1.
pub open spec fn vhea_layout_1_0() -> Seq<(Seq<char>, Seq<char>, Kind, Cond)> {
    seq![
        ("version"@, "Version16Dot16"@, Kind::Version16Dot16, Cond::Always),
        ("ascender"@, "FWORD"@, Kind::I16, Cond::Always),
        ("descender"@, "FWORD"@, Kind::I16, Cond::Always),
        ("lineGap"@, "FWORD"@, Kind::I16, Cond::Always),
        ("advanceHeightMax"@, "UFWORD"@, Kind::U16, Cond::Always),
        ("minTopSideBearing"@, "FWORD"@, Kind::I16, Cond::Always),
        ("minBottomSideBearing"@, "FWORD"@, Kind::I16, Cond::Always),
        ("yMaxExtent"@, "FWORD"@, Kind::I16, Cond::Always),
        ("caretSlopeRise"@, "int16"@, Kind::I16, Cond::Always),
        ("caretSlopeRun"@, "int16"@, Kind::I16, Cond::Always),
        ("caretOffset"@, "int16"@, Kind::I16, Cond::Always),
        ("reserved0"@, "int16"@, Kind::Zero16, Cond::Always),
        ("reserved1"@, "int16"@, Kind::Zero16, Cond::Always),
        ("reserved2"@, "int16"@, Kind::Zero16, Cond::Always),
        ("reserved3"@, "int16"@, Kind::Zero16, Cond::Always),
        ("metricDataFormat"@, "int16"@, Kind::I16, Cond::Always),
        ("numberOfLongVerMetrics"@, "uint16"@, Kind::U16, Cond::Always),
    ]
}

fn vhea_layout_1_0_items() -> (r: Vec<Item>)
    ensures
        items_view(r@) == vhea_layout_1_0(),
{
    let v: Vec<Item> = vec![
        Item { key: "version", ty: "Version16Dot16", kind: Kind::Version16Dot16, cond: Cond::Always },
        Item { key: "ascender", ty: "FWORD", kind: Kind::I16, cond: Cond::Always },
        Item { key: "descender", ty: "FWORD", kind: Kind::I16, cond: Cond::Always },
        Item { key: "lineGap", ty: "FWORD", kind: Kind::I16, cond: Cond::Always },
        Item { key: "advanceHeightMax", ty: "UFWORD", kind: Kind::U16, cond: Cond::Always },
        Item { key: "minTopSideBearing", ty: "FWORD", kind: Kind::I16, cond: Cond::Always },
        Item { key: "minBottomSideBearing", ty: "FWORD", kind: Kind::I16, cond: Cond::Always },
        Item { key: "yMaxExtent", ty: "FWORD", kind: Kind::I16, cond: Cond::Always },
        Item { key: "caretSlopeRise", ty: "int16", kind: Kind::I16, cond: Cond::Always },
        Item { key: "caretSlopeRun", ty: "int16", kind: Kind::I16, cond: Cond::Always },
        Item { key: "caretOffset", ty: "int16", kind: Kind::I16, cond: Cond::Always },
        Item { key: "reserved0", ty: "int16", kind: Kind::Zero16, cond: Cond::Always },
        Item { key: "reserved1", ty: "int16", kind: Kind::Zero16, cond: Cond::Always },
        Item { key: "reserved2", ty: "int16", kind: Kind::Zero16, cond: Cond::Always },
        Item { key: "reserved3", ty: "int16", kind: Kind::Zero16, cond: Cond::Always },
        Item { key: "metricDataFormat", ty: "int16", kind: Kind::I16, cond: Cond::Always },
        Item { key: "numberOfLongVerMetrics", ty: "uint16", kind: Kind::U16, cond: Cond::Always },
    ];
    assert(items_view(v@) =~= vhea_layout_1_0());
    v
}
/// The fields of the vertical header of version 1.1, whose first metrics are typographic.
pub open spec fn vhea_layout_1_1() -> Seq<(Seq<char>, Seq<char>, Kind, Cond)> {
    seq![
        ("version"@, "Version16Dot16"@, Kind::Version16Dot16, Cond::Always),
        ("vertTypoAscender"@, "FWORD"@, Kind::I16, Cond::Always),
        ("vertTypoDescender"@, "FWORD"@, Kind::I16, Cond::Always),
        ("vertTypoLineGap"@, "FWORD"@, Kind::I16, Cond::Always),
        ("advanceHeightMax"@, "UFWORD"@, Kind::U16, Cond::Always),
        ("minTopSideBearing"@, "FWORD"@, Kind::I16, Cond::Always),
        ("minBottomSideBearing"@, "FWORD"@, Kind::I16, Cond::Always),
        ("yMaxExtent"@, "FWORD"@, Kind::I16, Cond::Always),
        ("caretSlopeRise"@, "int16"@, Kind::I16, Cond::Always),
        ("caretSlopeRun"@, "int16"@, Kind::I16, Cond::Always),
        ("caretOffset"@, "int16"@, Kind::I16, Cond::Always),
        ("reserved0"@, "int16"@, Kind::Zero16, Cond::Always),
        ("reserved1"@, "int16"@, Kind::Zero16, Cond::Always),
        ("reserved2"@, "int16"@, Kind::Zero16, Cond::Always),
        ("reserved3"@, "int16"@, Kind::Zero16, Cond::Always),
        ("metricDataFormat"@, "int16"@, Kind::I16, Cond::Always),
        ("numberOfLongVerMetrics"@, "uint16"@, Kind::U16, Cond::Always),
    ]
}

fn vhea_layout_1_1_items() -> (r: Vec<Item>)
    ensures
        items_view(r@) == vhea_layout_1_1(),
{
    let v: Vec<Item> = vec![
        Item { key: "version", ty: "Version16Dot16", kind: Kind::Version16Dot16, cond: Cond::Always },
        Item { key: "vertTypoAscender", ty: "FWORD", kind: Kind::I16, cond: Cond::Always },
        Item { key: "vertTypoDescender", ty: "FWORD", kind: Kind::I16, cond: Cond::Always },
        Item { key: "vertTypoLineGap", ty: "FWORD", kind: Kind::I16, cond: Cond::Always },
        Item { key: "advanceHeightMax", ty: "UFWORD", kind: Kind::U16, cond: Cond::Always },
        Item { key: "minTopSideBearing", ty: "FWORD", kind: Kind::I16, cond: Cond::Always },
        Item { key: "minBottomSideBearing", ty: "FWORD", kind: Kind::I16, cond: Cond::Always },
        Item { key: "yMaxExtent", ty: "FWORD", kind: Kind::I16, cond: Cond::Always },
        Item { key: "caretSlopeRise", ty: "int16", kind: Kind::I16, cond: Cond::Always },
        Item { key: "caretSlopeRun", ty: "int16", kind: Kind::I16, cond: Cond::Always },
        Item { key: "caretOffset", ty: "int16", kind: Kind::I16, cond: Cond::Always },
        Item { key: "reserved0", ty: "int16", kind: Kind::Zero16, cond: Cond::Always },
        Item { key: "reserved1", ty: "int16", kind: Kind::Zero16, cond: Cond::Always },
        Item { key: "reserved2", ty: "int16", kind: Kind::Zero16, cond: Cond::Always },
        Item { key: "reserved3", ty: "int16", kind: Kind::Zero16, cond: Cond::Always },
        Item { key: "metricDataFormat", ty: "int16", kind: Kind::I16, cond: Cond::Always },
        Item { key: "numberOfLongVerMetrics", ty: "uint16", kind: Kind::U16, cond: Cond::Always },
    ];
    assert(items_view(v@) =~= vhea_layout_1_1());
    v
}

/// Whether the version reads `1.1`, whose ascender, descender and line gap
/// are named as typographic metrics.
pub open spec fn is_version_1_1(t: Seq<u8>) -> bool {
    u16_at(t, 0) == 1 && t[2] / 16 == 1
}

/// The vertical header table, described field by field; tables shorter than
/// the header are refused.
pub open spec fn spec_parse_table(t: Seq<u8>) -> Result<JsonV, Seq<char>> {
    if t.len() < 36 {
        Err(out_of_bounds())
    } else if is_version_1_1(t) {
        Ok(JsonV::Obj(layout_fields(t, vhea_layout_1_1(), 0, 0)))
    } else {
        Ok(JsonV::Obj(layout_fields(t, vhea_layout_1_0(), 0, 0)))
    }
}

/// Every field of a version 1.1 vertical header stands in the order of the
/// OpenType record, under its own name, read at its offset: the version at 0,
/// vertTypoAscender, vertTypoDescender and vertTypoLineGap at 4, 6 and 8, and
/// so on to numberOfLongVerMetrics at 34.
pub proof fn vhea_1_1_fields_follow_the_record(t: Seq<u8>)
    requires
        t.len() >= 36,
        is_version_1_1(t),
    ensures
        spec_parse_table(t) is Ok,
        ({
            let e = spec_parse_table(t)->Ok_0->Obj_0;
            &&& e.len() >= 17
            &&& e[0] == ("version"@, sfield("Version16Dot16"@, kind_value(t, 0, Kind::Version16Dot16), 0, 4))
            &&& e[1] == ("vertTypoAscender"@, sfield("FWORD"@, kind_value(t, 4, Kind::I16), 4, 2))
            &&& e[2] == ("vertTypoDescender"@, sfield("FWORD"@, kind_value(t, 6, Kind::I16), 6, 2))
            &&& e[3] == ("vertTypoLineGap"@, sfield("FWORD"@, kind_value(t, 8, Kind::I16), 8, 2))
            &&& e[4] == ("advanceHeightMax"@, sfield("UFWORD"@, kind_value(t, 10, Kind::U16), 10, 2))
            &&& e[5] == ("minTopSideBearing"@, sfield("FWORD"@, kind_value(t, 12, Kind::I16), 12, 2))
            &&& e[6] == ("minBottomSideBearing"@, sfield("FWORD"@, kind_value(t, 14, Kind::I16), 14, 2))
            &&& e[7] == ("yMaxExtent"@, sfield("FWORD"@, kind_value(t, 16, Kind::I16), 16, 2))
            &&& e[8] == ("caretSlopeRise"@, sfield("int16"@, kind_value(t, 18, Kind::I16), 18, 2))
            &&& e[9] == ("caretSlopeRun"@, sfield("int16"@, kind_value(t, 20, Kind::I16), 20, 2))
            &&& e[10] == ("caretOffset"@, sfield("int16"@, kind_value(t, 22, Kind::I16), 22, 2))
            &&& e[11] == ("reserved0"@, sfield("int16"@, kind_value(t, 24, Kind::Zero16), 24, 2))
            &&& e[12] == ("reserved1"@, sfield("int16"@, kind_value(t, 26, Kind::Zero16), 26, 2))
            &&& e[13] == ("reserved2"@, sfield("int16"@, kind_value(t, 28, Kind::Zero16), 28, 2))
            &&& e[14] == ("reserved3"@, sfield("int16"@, kind_value(t, 30, Kind::Zero16), 30, 2))
            &&& e[15] == ("metricDataFormat"@, sfield("int16"@, kind_value(t, 32, Kind::I16), 32, 2))
            &&& e[16] == ("numberOfLongVerMetrics"@, sfield("uint16"@, kind_value(t, 34, Kind::U16), 34, 2))
        }),
{
    let l = vhea_layout_1_1();
    reveal_with_fuel(crate::layout::prefix_applies, 18);
    reveal_with_fuel(crate::layout::size_before, 18);
    assert(crate::layout::prefix_applies(t, l, 0, 17));
    assert(crate::layout::size_before(l, 0, 17) == 36);
    crate::layout::layout_fields_in_order(t, l, 0, 0, 17);
}

/// Every field of a version 1.0 vertical header stands in the order of the
/// OpenType record, under its own name, read at its offset: the version at 0,
/// ascender, descender and lineGap at 4, 6 and 8, and so on to
/// numberOfLongVerMetrics at 34.
pub proof fn vhea_1_0_fields_follow_the_record(t: Seq<u8>)
    requires
        t.len() >= 36,
        !is_version_1_1(t),
    ensures
        spec_parse_table(t) is Ok,
        ({
            let e = spec_parse_table(t)->Ok_0->Obj_0;
            &&& e.len() >= 17
            &&& e[0] == ("version"@, sfield("Version16Dot16"@, kind_value(t, 0, Kind::Version16Dot16), 0, 4))
            &&& e[1] == ("ascender"@, sfield("FWORD"@, kind_value(t, 4, Kind::I16), 4, 2))
            &&& e[2] == ("descender"@, sfield("FWORD"@, kind_value(t, 6, Kind::I16), 6, 2))
            &&& e[3] == ("lineGap"@, sfield("FWORD"@, kind_value(t, 8, Kind::I16), 8, 2))
            &&& e[4] == ("advanceHeightMax"@, sfield("UFWORD"@, kind_value(t, 10, Kind::U16), 10, 2))
            &&& e[5] == ("minTopSideBearing"@, sfield("FWORD"@, kind_value(t, 12, Kind::I16), 12, 2))
            &&& e[6] == ("minBottomSideBearing"@, sfield("FWORD"@, kind_value(t, 14, Kind::I16), 14, 2))
            &&& e[7] == ("yMaxExtent"@, sfield("FWORD"@, kind_value(t, 16, Kind::I16), 16, 2))
            &&& e[8] == ("caretSlopeRise"@, sfield("int16"@, kind_value(t, 18, Kind::I16), 18, 2))
            &&& e[9] == ("caretSlopeRun"@, sfield("int16"@, kind_value(t, 20, Kind::I16), 20, 2))
            &&& e[10] == ("caretOffset"@, sfield("int16"@, kind_value(t, 22, Kind::I16), 22, 2))
            &&& e[11] == ("reserved0"@, sfield("int16"@, kind_value(t, 24, Kind::Zero16), 24, 2))
            &&& e[12] == ("reserved1"@, sfield("int16"@, kind_value(t, 26, Kind::Zero16), 26, 2))
            &&& e[13] == ("reserved2"@, sfield("int16"@, kind_value(t, 28, Kind::Zero16), 28, 2))
            &&& e[14] == ("reserved3"@, sfield("int16"@, kind_value(t, 30, Kind::Zero16), 30, 2))
            &&& e[15] == ("metricDataFormat"@, sfield("int16"@, kind_value(t, 32, Kind::I16), 32, 2))
            &&& e[16] == ("numberOfLongVerMetrics"@, sfield("uint16"@, kind_value(t, 34, Kind::U16), 34, 2))
        }),
{
    let l = vhea_layout_1_0();
    reveal_with_fuel(crate::layout::prefix_applies, 18);
    reveal_with_fuel(crate::layout::size_before, 18);
    assert(crate::layout::prefix_applies(t, l, 0, 17));
    assert(crate::layout::size_before(l, 0, 17) == 36);
    crate::layout::layout_fields_in_order(t, l, 0, 0, 17);
}

/// Describes the vertical header table.
pub fn parse_table(t: &[u8]) -> (r: Result<Json, String>)
    requires
        small_len(t@.len() as int),
    ensures
        parsed_view(r) == spec_parse_table(t@),
{
    if t.len() < 36 {
        return Err(text("An offset was out of bounds"));
    }
    let v11 = be_u16(t, 0) == 1 && t[2] / 16 == 1;
    let items = if v11 { vhea_layout_1_1_items() } else { vhea_layout_1_0_items() };
    let mut o = new_obj();
    read_layout(t, &items, 0, &mut o);
    if v11 {
        assert(jv_entries(o@) =~= layout_fields(t@, vhea_layout_1_1(), 0, 0));
    } else {
        assert(jv_entries(o@) =~= layout_fields(t@, vhea_layout_1_0(), 0, 0));
    }
    Ok(jobj(o))
}

/// The tag of this table.
pub open spec fn table_tag() -> Seq<u8> {
    seq![118u8, 104u8, 101u8, 97u8]
}

/// The `vhea` table of a font, described field by field.
pub open spec fn spec_parse(font: Seq<u8>) -> Result<JsonV, Seq<char>> {
    match spec_load(font, table_tag()) {
        Err(e) => Err(e),
        Ok(t) => spec_parse_table(t),
    }
}

/// Describes the `vhea` table of a font.
pub fn parse(font: &[u8]) -> (r: Result<Json, String>)
    requires
        small_len(font@.len() as int),
    ensures
        parsed_view(r) == spec_parse(font@),
{
    let tag: Vec<u8> = vec![118u8, 104u8, 101u8, 97u8];
    assert(tag@ =~= table_tag());
    match load_table(font, tag.as_slice()) {
        Err(e) => Err(e),
        Ok(t) => parse_table(t.as_slice()),
    }
}

} // verus!
