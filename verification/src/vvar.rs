use vstd::prelude::*;
use vstd::slice::slice_subrange;
use crate::json::{
    jnum, jobj, jv_entries, new_obj, parsed_field, parsed_field_wide, parsed_view, push_entry,
    sfield, text, Json, JsonV,
};
use crate::font::{load_table, out_of_bounds, spec_load};
use crate::reader::{be_u16, be_u32, small_len, u16_at, u32_at};
use crate::variations::{
    index_map_error, index_map_error_text, index_map_len, index_map_length, index_map_value,
    item_variation_store_length, parse_delta_set_index_map, parse_item_variation_store,
    store_error, store_length, store_value,
};

verus! {

/// The names of the four delta-set index mappings and where their offsets stand.
pub open spec fn mappings() -> Seq<(Seq<char>, int)> {
    seq![
        ("advanceHeightMapping"@, 8int),
        ("tsbMapping"@, 12int),
        ("bsbMapping"@, 16int),
        ("vOrgMapping"@, 20int),
    ]
}

/// The first error among the mappings from `i` on.
pub open spec fn mapping_error(t: Seq<u8>, i: int) -> Option<Seq<char>>
    decreases 4 - i,
{
    if i < 0 || i >= 4 {
        None
    } else {
        let m = u32_at(t, mappings()[i].1);
        if m != 0 && index_map_error(t, m) is Some {
            index_map_error(t, m)
        } else {
            mapping_error(t, i + 1)
        }
    }
}

/// Why the vertical metrics variations table cannot be described, if it
/// cannot: it is shorter than its header, its variation store offset is
/// null or the store cannot be read, or a mapping cannot be read.
pub open spec fn vvar_error(t: Seq<u8>) -> Option<Seq<char>> {
    let so = u32_at(t, 4);
    if t.len() < 24 {
        Some(out_of_bounds())
    } else if so == 0 {
        Some("An offset was unexpectedly null"@)
    } else if so + 8 > t.len() {
        Some(out_of_bounds())
    } else if store_error(t.subrange(so, t.len() as int)) is Some {
        store_error(t.subrange(so, t.len() as int))
    } else {
        mapping_error(t, 0)
    }
}

/// The described mappings from `i` on that are there.
pub open spec fn mapping_entries(t: Seq<u8>, i: int) -> Seq<(Seq<char>, JsonV)>
    decreases 4 - i,
{
    if i < 0 || i >= 4 {
        seq![]
    } else {
        let m = u32_at(t, mappings()[i].1);
        let here: Seq<(Seq<char>, JsonV)> = if m != 0 {
            seq![(mappings()[i].0, sfield("DeltaSetIndexMap"@, index_map_value(t, m), m, index_map_len(t, m)))]
        } else {
            seq![]
        };
        here + mapping_entries(t, i + 1)
    }
}

/// The vertical metrics variations table, described: its header, its
/// variation store and the mappings it has.
pub open spec fn spec_parse_table(t: Seq<u8>) -> Result<JsonV, Seq<char>> {
    match vvar_error(t) {
        Some(e) => Err(e),
        None => {
            let so = u32_at(t, 4);
            let s = t.subrange(so, t.len() as int);
            Ok(
                JsonV::Obj(
                    seq![
                        ("majorVersion"@, sfield("uint16"@, JsonV::Num(u16_at(t, 0)), 0, 2)),
                        ("minorVersion"@, sfield("uint16"@, JsonV::Num(u16_at(t, 2)), 2, 2)),
                        ("itemVariationStoreOffset"@, sfield("Offset32"@, JsonV::Num(so), 4, 4)),
                        ("advanceHeightMappingOffset"@, sfield("Offset32"@, JsonV::Num(u32_at(t, 8)), 8, 4)),
                        ("tsbMappingOffset"@, sfield("Offset32"@, JsonV::Num(u32_at(t, 12)), 12, 4)),
                        ("bsbMappingOffset"@, sfield("Offset32"@, JsonV::Num(u32_at(t, 16)), 16, 4)),
                        ("vOrgMappingOffset"@, sfield("Offset32"@, JsonV::Num(u32_at(t, 20)), 20, 4)),
                        ("itemVariationStore"@, sfield("ItemVariationStore"@, store_value(s, so), so, store_length(s))),
                    ] + mapping_entries(t, 0),
                ),
            )
        },
    }
}

/// Adds the mapping `name` whose offset stands at `at`, where it is there;
/// or gives why it cannot be read.
pub fn insert_index_map(o: &mut Vec<(String, Json)>, t: &[u8], name: &str, at: usize) -> (r: Result<(), String>)
    requires
        at + 4 <= t@.len(),
        small_len(t@.len() as int),
    ensures
        match r {
            Ok(()) => {
                let m = u32_at(t@, at as int);
                &&& (m != 0 ==> index_map_error(t@, m) is None)
                &&& jv_entries(final(o)@) == jv_entries(old(o)@) + if m != 0 {
                    seq![(name@, sfield("DeltaSetIndexMap"@, index_map_value(t@, m), m, index_map_len(t@, m)))]
                } else {
                    Seq::<(Seq<char>, JsonV)>::empty()
                }
            },
            Err(e) => {
                let m = u32_at(t@, at as int);
                m != 0 && index_map_error(t@, m) == Some(e@)
            },
        },
{
    let m = be_u32(t, at) as usize;
    if m == 0 {
        assert(jv_entries(o@) =~= jv_entries(old(o)@) + Seq::<(Seq<char>, JsonV)>::empty());
        return Ok(());
    }
    match index_map_error_text(t, m) {
        Some(e) => return Err(e),
        None => {},
    }
    let v = parse_delta_set_index_map(t, m);
    let len = index_map_length(t, m);
    push_entry(o, name, parsed_field_wide("DeltaSetIndexMap", v, m as u64, len));
    Ok(())
}

/// Adds the mappings that are there; or gives why one cannot be read.
fn insert_mappings(o: &mut Vec<(String, Json)>, t: &[u8]) -> (r: Result<(), String>)
    requires
        t@.len() >= 24,
        small_len(t@.len() as int),
    ensures
        match r {
            Ok(()) => mapping_error(t@, 0) is None && jv_entries(final(o)@) == jv_entries(old(o)@) + mapping_entries(t@, 0),
            Err(e) => mapping_error(t@, 0) == Some(e@),
        },
{
    proof {
        reveal_with_fuel(mapping_error, 5);
        reveal_with_fuel(mapping_entries, 5);
    }
    assert(mappings()[0].1 == 8 && mappings()[1].1 == 12 && mappings()[2].1 == 16 && mappings()[3].1 == 20);
    assert(mappings()[0].0 == "advanceHeightMapping"@ && mappings()[1].0 == "tsbMapping"@);
    assert(mappings()[2].0 == "bsbMapping"@ && mappings()[3].0 == "vOrgMapping"@);
    let ghost base = jv_entries(o@);
    match insert_index_map(o, t, "advanceHeightMapping", 8) {
        Err(e) => return Err(e),
        Ok(()) => {},
    }
    let ghost s1 = jv_entries(o@);
    match insert_index_map(o, t, "tsbMapping", 12) {
        Err(e) => return Err(e),
        Ok(()) => {},
    }
    let ghost s2 = jv_entries(o@);
    match insert_index_map(o, t, "bsbMapping", 16) {
        Err(e) => return Err(e),
        Ok(()) => {},
    }
    let ghost s3 = jv_entries(o@);
    match insert_index_map(o, t, "vOrgMapping", 20) {
        Err(e) => return Err(e),
        Ok(()) => {},
    }
    assert(jv_entries(o@) =~= base + mapping_entries(t@, 0));
    Ok(())
}

/// The vertical metrics variations table, described.
pub fn parse_table(t: &[u8]) -> (r: Result<Json, String>)
    requires
        small_len(t@.len() as int),
    ensures
        parsed_view(r) == spec_parse_table(t@),
{
    if t.len() < 24 {
        return Err(text("An offset was out of bounds"));
    }
    let so = be_u32(t, 4) as usize;
    if so == 0 {
        return Err(text("An offset was unexpectedly null"));
    }
    if so > t.len() || t.len() - so < 8 {
        return Err(text("An offset was out of bounds"));
    }
    let s = slice_subrange(t, so, t.len());
    let store = match parse_item_variation_store(s, so) {
        Err(e) => return Err(e),
        Ok(j) => j,
    };
    let store_len = item_variation_store_length(s);
    let mut o = new_obj();
    push_entry(&mut o, "majorVersion", parsed_field("uint16", jnum(be_u16(t, 0) as u64), 0, 2));
    push_entry(&mut o, "minorVersion", parsed_field("uint16", jnum(be_u16(t, 2) as u64), 2, 2));
    push_entry(&mut o, "itemVariationStoreOffset", parsed_field("Offset32", jnum(so as u64), 4, 4));
    push_entry(&mut o, "advanceHeightMappingOffset", parsed_field("Offset32", jnum(be_u32(t, 8) as u64), 8, 4));
    push_entry(&mut o, "tsbMappingOffset", parsed_field("Offset32", jnum(be_u32(t, 12) as u64), 12, 4));
    push_entry(&mut o, "bsbMappingOffset", parsed_field("Offset32", jnum(be_u32(t, 16) as u64), 16, 4));
    push_entry(&mut o, "vOrgMappingOffset", parsed_field("Offset32", jnum(be_u32(t, 20) as u64), 20, 4));
    push_entry(&mut o, "itemVariationStore", parsed_field_wide("ItemVariationStore", store, so as u64, store_len));
    let ghost head = jv_entries(o@);
    match insert_mappings(&mut o, t) {
        Err(e) => return Err(e),
        Ok(()) => {},
    }
    assert(jv_entries(o@) =~= head + mapping_entries(t@, 0));
    assert(jv_entries(o@) =~= spec_parse_table(t@)->Ok_0->Obj_0);
    Ok(jobj(o))
}

pub open spec fn table_tag() -> Seq<u8> {
    seq![86u8, 86u8, 65u8, 82u8]
}

/// The `VVAR` table of a font, described.
pub open spec fn spec_parse(font: Seq<u8>) -> Result<JsonV, Seq<char>> {
    match spec_load(font, table_tag()) {
        Err(e) => Err(e),
        Ok(t) => spec_parse_table(t),
    }
}

/// Describes the `VVAR` table of a font.
pub fn parse(font: &[u8]) -> (r: Result<Json, String>)
    requires
        small_len(font@.len() as int),
    ensures
        parsed_view(r) == spec_parse(font@),
{
    let tag: Vec<u8> = vec![86u8, 86u8, 65u8, 82u8];
    assert(tag@ =~= table_tag());
    match load_table(font, tag.as_slice()) {
        Err(e) => Err(e),
        Ok(t) => parse_table(t.as_slice()),
    }
}

} // verus!
