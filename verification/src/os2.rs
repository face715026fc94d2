use vstd::prelude::*;
use crate::json::{jobj, jv_entries, new_obj, Json, JsonV, parsed_view, sfield};
use crate::layout::{items_view, kind_value, layout_fields, read_layout, Cond, Item, Kind};
use crate::font::{load_table, out_of_bounds, spec_load};
use crate::reader::small_len;
use crate::json::text;
use crate::text::{flag_names, flags_text, flags_text_opt, flags_string, flags_string_opt, set_flag_names, table_view};

verus! {

pub open spec fn fs_type_flags() -> Seq<(u64, Seq<char>)> {
    seq![(0x2, "Restricted License Embedding"@), (0x4, "Preview & Print Embedding"@), (0x8, "Editable Embedding"@), (0x100, "No Subsetting"@), (0x200, "Bitmap Embedding Only"@)]
}

pub open spec fn spec_format_fs_type(bits: u16) -> Seq<char> {
    flags_text((bits) as nat, 4, flag_names((bits) as u64, fs_type_flags()), "Installable Embedding"@)
}

/// The fsType bits with the embedding permissions they grant.
pub fn format_fs_type(bits: u16) -> (r: String)
    ensures
        r@ == spec_format_fs_type(bits),
{
    let bits: u64 = (bits) as u64;
    let table: Vec<(u64, &'static str)> = vec![(0x2, "Restricted License Embedding"), (0x4, "Preview & Print Embedding"), (0x8, "Editable Embedding"), (0x100, "No Subsetting"), (0x200, "Bitmap Embedding Only")];
    assert(table_view(table@) =~= fs_type_flags());
    let names = set_flag_names(bits, &table);
    flags_string(bits, 4, &names, "Installable Embedding")
}

pub open spec fn selection_flags() -> Seq<(u64, Seq<char>)> {
    seq![(0x1, "Italic"@), (0x2, "Underscore"@), (0x4, "Negative"@), (0x8, "Outlined"@), (0x10, "Strikeout"@), (0x20, "Bold"@), (0x40, "Regular"@), (0x80, "Use typo metrics"@), (0x100, "WWS"@), (0x200, "Oblique"@)]
}

pub open spec fn spec_format_selection_flags(raw: u16) -> Seq<char> {
    flags_text((raw & 0x03FF) as nat, 4, flag_names((raw & 0x03FF) as u64, selection_flags()), "None"@)
}

/// The fsSelection bits (those the format defines) with their names.
pub fn format_selection_flags(raw: u16) -> (r: String)
    ensures
        r@ == spec_format_selection_flags(raw),
{
    let bits: u64 = (raw & 0x03FF) as u64;
    let table: Vec<(u64, &'static str)> = vec![(0x1, "Italic"), (0x2, "Underscore"), (0x4, "Negative"), (0x8, "Outlined"), (0x10, "Strikeout"), (0x20, "Bold"), (0x40, "Regular"), (0x80, "Use typo metrics"), (0x100, "WWS"), (0x200, "Oblique")];
    assert(table_view(table@) =~= selection_flags());
    let names = set_flag_names(bits, &table);
    flags_string(bits, 4, &names, "None")
}
pub open spec fn spec_format_u32_hex(value: u32) -> Seq<char> {
    crate::text::hex_0x(value as nat, 8)
}

/// A 32-bit value as `0x` and eight hexadecimal digits.
pub fn format_u32_hex(value: u32) -> (r: String)
    ensures
        r@ == spec_format_u32_hex(value),
{
    crate::text::hex_0x_string(value as u64, 8)
}

} // verus!

verus! {

/// The fields of the OS/2 table; later versions add fields at the end.
pub open spec fn os2_layout() -> Seq<(Seq<char>, Seq<char>, Kind, Cond)> {
    seq![
        ("version"@, "uint16"@, Kind::U16, Cond::Always),
        ("xAvgCharWidth"@, "int16"@, Kind::I16, Cond::Always),
        ("usWeightClass"@, "uint16"@, Kind::U16, Cond::Always),
        ("usWidthClass"@, "uint16"@, Kind::U16, Cond::Always),
        ("fsType"@, "uint16"@, Kind::FsType, Cond::Always),
        ("ySubscriptXSize"@, "int16"@, Kind::I16, Cond::Always),
        ("ySubscriptYSize"@, "int16"@, Kind::I16, Cond::Always),
        ("ySubscriptXOffset"@, "int16"@, Kind::I16, Cond::Always),
        ("ySubscriptYOffset"@, "int16"@, Kind::I16, Cond::Always),
        ("ySuperscriptXSize"@, "int16"@, Kind::I16, Cond::Always),
        ("ySuperscriptYSize"@, "int16"@, Kind::I16, Cond::Always),
        ("ySuperscriptXOffset"@, "int16"@, Kind::I16, Cond::Always),
        ("ySuperscriptYOffset"@, "int16"@, Kind::I16, Cond::Always),
        ("yStrikeoutSize"@, "int16"@, Kind::I16, Cond::Always),
        ("yStrikeoutPosition"@, "int16"@, Kind::I16, Cond::Always),
        ("sFamilyClass"@, "int16"@, Kind::I16, Cond::Always),
        ("panose"@, "uint8[]"@, Kind::Panose, Cond::Always),
        ("ulUnicodeRange1"@, "uint32"@, Kind::HexU32, Cond::Always),
        ("ulUnicodeRange2"@, "uint32"@, Kind::HexU32, Cond::Always),
        ("ulUnicodeRange3"@, "uint32"@, Kind::HexU32, Cond::Always),
        ("ulUnicodeRange4"@, "uint32"@, Kind::HexU32, Cond::Always),
        ("achVendId"@, "Tag"@, Kind::Tag, Cond::Always),
        ("fsSelection"@, "uint16"@, Kind::Selection, Cond::Always),
        ("usFirstCharIndex"@, "uint16"@, Kind::U16, Cond::Always),
        ("usLastCharIndex"@, "uint16"@, Kind::U16, Cond::Always),
        ("sTypoAscender"@, "int16"@, Kind::I16, Cond::Always),
        ("sTypoDescender"@, "int16"@, Kind::I16, Cond::Always),
        ("sTypoLineGap"@, "int16"@, Kind::I16, Cond::Always),
        ("usWinAscent"@, "uint16"@, Kind::U16, Cond::Always),
        ("usWinDescent"@, "uint16"@, Kind::U16, Cond::Always),
        ("ulCodePageRange1"@, "uint32"@, Kind::HexU32, Cond::VersionAtLeast(1)),
        ("ulCodePageRange2"@, "uint32"@, Kind::HexU32, Cond::VersionAtLeast(1)),
        ("sxHeight"@, "int16"@, Kind::I16, Cond::VersionAtLeast(2)),
        ("sCapHeight"@, "int16"@, Kind::I16, Cond::VersionAtLeast(2)),
        ("usDefaultChar"@, "uint16"@, Kind::U16, Cond::VersionAtLeast(2)),
        ("usBreakChar"@, "uint16"@, Kind::U16, Cond::VersionAtLeast(2)),
        ("usMaxContext"@, "uint16"@, Kind::U16, Cond::VersionAtLeast(2)),
        ("usLowerOpticalPointSize"@, "uint16"@, Kind::U16, Cond::VersionAtLeast(5)),
        ("usUpperOpticalPointSize"@, "uint16"@, Kind::U16, Cond::VersionAtLeast(5)),
    ]
}

fn os2_layout_items() -> (r: Vec<Item>)
    ensures
        items_view(r@) == os2_layout(),
{
    let v: Vec<Item> = vec![
        Item { key: "version", ty: "uint16", kind: Kind::U16, cond: Cond::Always },
        Item { key: "xAvgCharWidth", ty: "int16", kind: Kind::I16, cond: Cond::Always },
        Item { key: "usWeightClass", ty: "uint16", kind: Kind::U16, cond: Cond::Always },
        Item { key: "usWidthClass", ty: "uint16", kind: Kind::U16, cond: Cond::Always },
        Item { key: "fsType", ty: "uint16", kind: Kind::FsType, cond: Cond::Always },
        Item { key: "ySubscriptXSize", ty: "int16", kind: Kind::I16, cond: Cond::Always },
        Item { key: "ySubscriptYSize", ty: "int16", kind: Kind::I16, cond: Cond::Always },
        Item { key: "ySubscriptXOffset", ty: "int16", kind: Kind::I16, cond: Cond::Always },
        Item { key: "ySubscriptYOffset", ty: "int16", kind: Kind::I16, cond: Cond::Always },
        Item { key: "ySuperscriptXSize", ty: "int16", kind: Kind::I16, cond: Cond::Always },
        Item { key: "ySuperscriptYSize", ty: "int16", kind: Kind::I16, cond: Cond::Always },
        Item { key: "ySuperscriptXOffset", ty: "int16", kind: Kind::I16, cond: Cond::Always },
        Item { key: "ySuperscriptYOffset", ty: "int16", kind: Kind::I16, cond: Cond::Always },
        Item { key: "yStrikeoutSize", ty: "int16", kind: Kind::I16, cond: Cond::Always },
        Item { key: "yStrikeoutPosition", ty: "int16", kind: Kind::I16, cond: Cond::Always },
        Item { key: "sFamilyClass", ty: "int16", kind: Kind::I16, cond: Cond::Always },
        Item { key: "panose", ty: "uint8[]", kind: Kind::Panose, cond: Cond::Always },
        Item { key: "ulUnicodeRange1", ty: "uint32", kind: Kind::HexU32, cond: Cond::Always },
        Item { key: "ulUnicodeRange2", ty: "uint32", kind: Kind::HexU32, cond: Cond::Always },
        Item { key: "ulUnicodeRange3", ty: "uint32", kind: Kind::HexU32, cond: Cond::Always },
        Item { key: "ulUnicodeRange4", ty: "uint32", kind: Kind::HexU32, cond: Cond::Always },
        Item { key: "achVendId", ty: "Tag", kind: Kind::Tag, cond: Cond::Always },
        Item { key: "fsSelection", ty: "uint16", kind: Kind::Selection, cond: Cond::Always },
        Item { key: "usFirstCharIndex", ty: "uint16", kind: Kind::U16, cond: Cond::Always },
        Item { key: "usLastCharIndex", ty: "uint16", kind: Kind::U16, cond: Cond::Always },
        Item { key: "sTypoAscender", ty: "int16", kind: Kind::I16, cond: Cond::Always },
        Item { key: "sTypoDescender", ty: "int16", kind: Kind::I16, cond: Cond::Always },
        Item { key: "sTypoLineGap", ty: "int16", kind: Kind::I16, cond: Cond::Always },
        Item { key: "usWinAscent", ty: "uint16", kind: Kind::U16, cond: Cond::Always },
        Item { key: "usWinDescent", ty: "uint16", kind: Kind::U16, cond: Cond::Always },
        Item { key: "ulCodePageRange1", ty: "uint32", kind: Kind::HexU32, cond: Cond::VersionAtLeast(1) },
        Item { key: "ulCodePageRange2", ty: "uint32", kind: Kind::HexU32, cond: Cond::VersionAtLeast(1) },
        Item { key: "sxHeight", ty: "int16", kind: Kind::I16, cond: Cond::VersionAtLeast(2) },
        Item { key: "sCapHeight", ty: "int16", kind: Kind::I16, cond: Cond::VersionAtLeast(2) },
        Item { key: "usDefaultChar", ty: "uint16", kind: Kind::U16, cond: Cond::VersionAtLeast(2) },
        Item { key: "usBreakChar", ty: "uint16", kind: Kind::U16, cond: Cond::VersionAtLeast(2) },
        Item { key: "usMaxContext", ty: "uint16", kind: Kind::U16, cond: Cond::VersionAtLeast(2) },
        Item { key: "usLowerOpticalPointSize", ty: "uint16", kind: Kind::U16, cond: Cond::VersionAtLeast(5) },
        Item { key: "usUpperOpticalPointSize", ty: "uint16", kind: Kind::U16, cond: Cond::VersionAtLeast(5) },
    ];
    assert(items_view(v@) =~= os2_layout());
    v
}

/// The OS/2 table, described field by field; a field of a later version past the end of the data is left out.
pub open spec fn spec_parse_table(t: Seq<u8>) -> Result<JsonV, Seq<char>> {
    if t.len() < 78 {
        Err(out_of_bounds())
    } else {
        Ok(JsonV::Obj(layout_fields(t, os2_layout(), 0, 0)))
    }
}

/// Every field of a version 0 OS/2 table stands in the order of the OpenType
/// record, under its own name, read at its offset in the table: the version at
/// 0, xAvgCharWidth at 2, usWeightClass at 4, usWidthClass at 6, fsType at 8,
/// and so on to usWinDescent at 76.
pub proof fn os2_fields_follow_the_record(t: Seq<u8>)
    requires
        t.len() >= 78,
    ensures
        spec_parse_table(t) is Ok,
        ({
            let e = spec_parse_table(t)->Ok_0->Obj_0;
            &&& e.len() >= 30
            &&& e[0] == ("version"@, sfield("uint16"@, kind_value(t, 0, Kind::U16), 0, 2))
            &&& e[1] == ("xAvgCharWidth"@, sfield("int16"@, kind_value(t, 2, Kind::I16), 2, 2))
            &&& e[2] == ("usWeightClass"@, sfield("uint16"@, kind_value(t, 4, Kind::U16), 4, 2))
            &&& e[3] == ("usWidthClass"@, sfield("uint16"@, kind_value(t, 6, Kind::U16), 6, 2))
            &&& e[4] == ("fsType"@, sfield("uint16"@, kind_value(t, 8, Kind::FsType), 8, 2))
            &&& e[5] == ("ySubscriptXSize"@, sfield("int16"@, kind_value(t, 10, Kind::I16), 10, 2))
            &&& e[6] == ("ySubscriptYSize"@, sfield("int16"@, kind_value(t, 12, Kind::I16), 12, 2))
            &&& e[7] == ("ySubscriptXOffset"@, sfield("int16"@, kind_value(t, 14, Kind::I16), 14, 2))
            &&& e[8] == ("ySubscriptYOffset"@, sfield("int16"@, kind_value(t, 16, Kind::I16), 16, 2))
            &&& e[9] == ("ySuperscriptXSize"@, sfield("int16"@, kind_value(t, 18, Kind::I16), 18, 2))
            &&& e[10] == ("ySuperscriptYSize"@, sfield("int16"@, kind_value(t, 20, Kind::I16), 20, 2))
            &&& e[11] == ("ySuperscriptXOffset"@, sfield("int16"@, kind_value(t, 22, Kind::I16), 22, 2))
            &&& e[12] == ("ySuperscriptYOffset"@, sfield("int16"@, kind_value(t, 24, Kind::I16), 24, 2))
            &&& e[13] == ("yStrikeoutSize"@, sfield("int16"@, kind_value(t, 26, Kind::I16), 26, 2))
            &&& e[14] == ("yStrikeoutPosition"@, sfield("int16"@, kind_value(t, 28, Kind::I16), 28, 2))
            &&& e[15] == ("sFamilyClass"@, sfield("int16"@, kind_value(t, 30, Kind::I16), 30, 2))
            &&& e[16] == ("panose"@, sfield("uint8[]"@, kind_value(t, 32, Kind::Panose), 32, 10))
            &&& e[17] == ("ulUnicodeRange1"@, sfield("uint32"@, kind_value(t, 42, Kind::HexU32), 42, 4))
            &&& e[18] == ("ulUnicodeRange2"@, sfield("uint32"@, kind_value(t, 46, Kind::HexU32), 46, 4))
            &&& e[19] == ("ulUnicodeRange3"@, sfield("uint32"@, kind_value(t, 50, Kind::HexU32), 50, 4))
            &&& e[20] == ("ulUnicodeRange4"@, sfield("uint32"@, kind_value(t, 54, Kind::HexU32), 54, 4))
            &&& e[21] == ("achVendId"@, sfield("Tag"@, kind_value(t, 58, Kind::Tag), 58, 4))
            &&& e[22] == ("fsSelection"@, sfield("uint16"@, kind_value(t, 62, Kind::Selection), 62, 2))
            &&& e[23] == ("usFirstCharIndex"@, sfield("uint16"@, kind_value(t, 64, Kind::U16), 64, 2))
            &&& e[24] == ("usLastCharIndex"@, sfield("uint16"@, kind_value(t, 66, Kind::U16), 66, 2))
            &&& e[25] == ("sTypoAscender"@, sfield("int16"@, kind_value(t, 68, Kind::I16), 68, 2))
            &&& e[26] == ("sTypoDescender"@, sfield("int16"@, kind_value(t, 70, Kind::I16), 70, 2))
            &&& e[27] == ("sTypoLineGap"@, sfield("int16"@, kind_value(t, 72, Kind::I16), 72, 2))
            &&& e[28] == ("usWinAscent"@, sfield("uint16"@, kind_value(t, 74, Kind::U16), 74, 2))
            &&& e[29] == ("usWinDescent"@, sfield("uint16"@, kind_value(t, 76, Kind::U16), 76, 2))
        }),
{
    let l = os2_layout();
    reveal_with_fuel(crate::layout::prefix_applies, 31);
    reveal_with_fuel(crate::layout::size_before, 31);
    assert(crate::layout::prefix_applies(t, l, 0, 30));
    assert(crate::layout::size_before(l, 0, 30) == 78);
    crate::layout::layout_fields_in_order(t, l, 0, 0, 30);
}

/// The OS/2 table, described field by field; a field of a later version past the end of the data is left out.
pub fn parse_table(t: &[u8]) -> (r: Result<Json, String>)
    requires
        small_len(t@.len() as int),
    ensures
        parsed_view(r) == spec_parse_table(t@),
{
    if t.len() < 78 {
        return Err(text("An offset was out of bounds"));
    }
    let items = os2_layout_items();
    let mut o = new_obj();
    read_layout(t, &items, 0, &mut o);
    assert(jv_entries(o@) =~= layout_fields(t@, os2_layout(), 0, 0));
    Ok(jobj(o))
}

/// The tag of this table.
pub open spec fn table_tag() -> Seq<u8> {
    seq![79u8, 83u8, 47u8, 50u8]
}

/// The `OS/2` table of a font, described field by field.
pub open spec fn spec_parse(font: Seq<u8>) -> Result<JsonV, Seq<char>> {
    match spec_load(font, table_tag()) {
        Err(e) => Err(e),
        Ok(t) => spec_parse_table(t),
    }
}

/// Describes the `OS/2` table of a font.
pub fn parse(font: &[u8]) -> (r: Result<Json, String>)
    requires
        small_len(font@.len() as int),
    ensures
        parsed_view(r) == spec_parse(font@),
{
    let tag: Vec<u8> = vec![79u8, 83u8, 47u8, 50u8];
    assert(tag@ =~= table_tag());
    match load_table(font, tag.as_slice()) {
        Err(e) => Err(e),
        Ok(t) => parse_table(t.as_slice()),
    }
}

} // verus!
