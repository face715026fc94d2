use vstd::prelude::*;
use crate::json::{
    jarr, jobj, jv_entries, jv_seq, new_arr, new_obj, parsed_field, parsed_view, push_entry,
    push_item, sfield, text, Json, JsonV,
};
use crate::layout::{items_view, kind_value, layout_fields, read_layout, Cond, Item, Kind};
use crate::font::{open_error, record_count};
use crate::reader::{be_u16, be_u32, small_len};
use crate::text::hex_0x_string;
use vstd::string::StringExecFns;

verus! {

/// The fields of the table directory's header, in order.
pub open spec fn header_layout() -> Seq<(Seq<char>, Seq<char>, Kind, Cond)> {
    seq![
        ("sfntVersion"@, "uint32"@, Kind::HexU32, Cond::Always),
        ("numTables"@, "uint16"@, Kind::U16, Cond::Always),
        ("searchRange"@, "uint16"@, Kind::U16, Cond::Always),
        ("entrySelector"@, "uint16"@, Kind::U16, Cond::Always),
        ("rangeShift"@, "uint16"@, Kind::U16, Cond::Always),
    ]
}

/// The fields of a table record, in order.
pub open spec fn record_layout() -> Seq<(Seq<char>, Seq<char>, Kind, Cond)> {
    seq![
        ("tag"@, "Tag"@, Kind::Tag, Cond::Always),
        ("checksum"@, "uint32"@, Kind::HexU32, Cond::Always),
        ("offset"@, "uint32"@, Kind::U32, Cond::Always),
        ("length"@, "uint32"@, Kind::U32, Cond::Always),
    ]
}

fn header_items() -> (r: Vec<Item>)
    ensures
        items_view(r@) == header_layout(),
{
    let v: Vec<Item> = vec![
        Item { key: "sfntVersion", ty: "uint32", kind: Kind::HexU32, cond: Cond::Always },
        Item { key: "numTables", ty: "uint16", kind: Kind::U16, cond: Cond::Always },
        Item { key: "searchRange", ty: "uint16", kind: Kind::U16, cond: Cond::Always },
        Item { key: "entrySelector", ty: "uint16", kind: Kind::U16, cond: Cond::Always },
        Item { key: "rangeShift", ty: "uint16", kind: Kind::U16, cond: Cond::Always },
    ];
    assert(items_view(v@) =~= header_layout());
    v
}

fn record_items() -> (r: Vec<Item>)
    ensures
        items_view(r@) == record_layout(),
{
    let v: Vec<Item> = vec![
        Item { key: "tag", ty: "Tag", kind: Kind::Tag, cond: Cond::Always },
        Item { key: "checksum", ty: "uint32", kind: Kind::HexU32, cond: Cond::Always },
        Item { key: "offset", ty: "uint32", kind: Kind::U32, cond: Cond::Always },
        Item { key: "length", ty: "uint32", kind: Kind::U32, cond: Cond::Always },
    ];
    assert(items_view(v@) =~= record_layout());
    v
}

/// Table record `i`, described.
pub open spec fn record_item(font: Seq<u8>, i: int) -> JsonV {
    JsonV::Obj(layout_fields(font, record_layout(), 0, 12 + 16 * i))
}

/// The header of the table directory shows sfntVersion at 0, numTables at 4,
/// searchRange at 6, entrySelector at 8 and rangeShift at 10; table record
/// `i` shows, from byte `12 + 16 * i` on, the tag, then the checksum 4 bytes
/// later, the offset 8 bytes later and the length 12 bytes later.
pub proof fn directory_fields_follow_the_record(font: Seq<u8>, i: nat)
    ensures
        font.len() >= 12 ==> {
            let e = layout_fields(font, header_layout(), 0, 0);
            &&& e.len() >= 5
            &&& e[0] == ("sfntVersion"@, sfield("uint32"@, kind_value(font, 0, Kind::HexU32), 0, 4))
            &&& e[1] == ("numTables"@, sfield("uint16"@, kind_value(font, 4, Kind::U16), 4, 2))
            &&& e[2] == ("searchRange"@, sfield("uint16"@, kind_value(font, 6, Kind::U16), 6, 2))
            &&& e[3] == ("entrySelector"@, sfield("uint16"@, kind_value(font, 8, Kind::U16), 8, 2))
            &&& e[4] == ("rangeShift"@, sfield("uint16"@, kind_value(font, 10, Kind::U16), 10, 2))
        },
        12 + 16 * (i as int) + 16 <= font.len() ==> {
            let e = record_item(font, i as int)->Obj_0;
            let p: int = 12 + 16 * (i as int);
            &&& e.len() >= 4
            &&& e[0] == ("tag"@, sfield("Tag"@, kind_value(font, p, Kind::Tag), p, 4))
            &&& e[1] == ("checksum"@, sfield("uint32"@, kind_value(font, p + 4, Kind::HexU32), p + 4, 4))
            &&& e[2] == ("offset"@, sfield("uint32"@, kind_value(font, p + 8, Kind::U32), p + 8, 4))
            &&& e[3] == ("length"@, sfield("uint32"@, kind_value(font, p + 12, Kind::U32), p + 12, 4))
        },
{
    reveal_with_fuel(crate::layout::prefix_applies, 6);
    reveal_with_fuel(crate::layout::size_before, 6);
    if font.len() >= 12 {
        let h = header_layout();
        assert(crate::layout::prefix_applies(font, h, 0, 5));
        assert(crate::layout::size_before(h, 0, 5) == 12);
        crate::layout::layout_fields_in_order(font, h, 0, 0, 5);
    }
    if 12 + 16 * (i as int) + 16 <= font.len() {
        let r = record_layout();
        assert(crate::layout::prefix_applies(font, r, 0, 4));
        assert(crate::layout::size_before(r, 0, 4) == 16);
        crate::layout::layout_fields_in_order(font, r, 0, 12 + 16 * (i as int), 4);
    }
}

/// The table directory of a font that opens, described: its header, then
/// every record it holds.
pub open spec fn spec_parse(font: Seq<u8>) -> Result<JsonV, Seq<char>> {
    match open_error(font) {
        Some(e) => Err(e),
        None => {
            let n = record_count(font);
            Ok(
                JsonV::Obj(
                    layout_fields(font, header_layout(), 0, 0) + seq![
                        (
                            "tableRecords"@,
                            sfield(
                                "TableRecord[]"@,
                                JsonV::Arr(Seq::new(n, |i: int| record_item(font, i))),
                                12,
                                16 * n as int,
                            ),
                        ),
                    ],
                ),
            )
        },
    }
}

/// Describes the table directory of a font.
pub fn parse(font: &[u8]) -> (r: Result<Json, String>)
    requires
        small_len(font@.len() as int),
    ensures
        parsed_view(r) == spec_parse(font@),
{
    if font.len() < 12 {
        return Err(text("An offset was out of bounds"));
    }
    let version = be_u32(font, 0);
    if !(version == 0x0001_0000 || version == 0x7472_7565 || version == 0x4F54_544F) {
        let mut e = text("Invalid sfnt version ");
        let h = hex_0x_string(version as u64, 8);
        e.append(h.as_str());
        return Err(e);
    }
    let header = header_items();
    let mut o = new_obj();
    read_layout(font, &header, 0, &mut o);
    let num_tables = be_u16(font, 4) as usize;
    let count: usize = if 12 + 16 * num_tables <= font.len() { num_tables } else { 0 };
    assert(count == record_count(font@));
    let fields = record_items();
    assert(fields@.len() == items_view(fields@).len());
    let ghost want = Seq::new(count as nat, |i: int| record_item(font@, i));
    let mut records = new_arr();
    let mut i: usize = 0;
    while i < count
        invariant
            i <= count,
            12 + 16 * count <= font@.len(),
            font@.len() >= 12,
            small_len(font@.len() as int),
            items_view(fields@) == record_layout(),
            fields@.len() == 4,
            want == Seq::new(count as nat, |i: int| record_item(font@, i)),
            jv_seq(records@) == want.take(i as int),
        decreases count - i,
    {
        let mut rec = new_obj();
        read_layout(font, &fields, 12 + 16 * i, &mut rec);
        assert(jv_entries(rec@) =~= layout_fields(font@, record_layout(), 0, 12 + 16 * i));
        push_item(&mut records, jobj(rec));
        assert(want.take(i + 1) =~= want.take(i as int).push(want[i as int]));
        i = i + 1;
    }
    assert(want.take(count as int) =~= want);
    push_entry(&mut o, "tableRecords", parsed_field("TableRecord[]", jarr(records), 12, 16 * count));
    assert(jv_entries(o@) =~= spec_parse(font@)->Ok_0->Obj_0);
    Ok(jobj(o))
}

} // verus!
