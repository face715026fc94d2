use vstd::prelude::*;
use vstd::slice::slice_subrange;
use crate::json::{
    jarr, jnum, jobj, jv_entries, jv_seq, new_arr, new_obj, parsed_field, parsed_field_wide,
    parsed_view, push_entry, push_item, sfield, text, Json, JsonV,
};
use crate::font::{load_table, out_of_bounds, spec_load};
use crate::reader::{be_i16, be_u16, be_u32, i16_at, small_len, u16_at, u32_at};
use crate::variations::{
    index_map_error, index_map_error_text, index_map_len, index_map_length, index_map_value,
    item_variation_store_length, parse_delta_set_index_map, parse_item_variation_store,
    store_error, store_length, store_value,
};

verus! {

pub open spec fn value_map(t: Seq<u8>, p: int) -> JsonV {
    JsonV::Obj(
        seq![
            ("fromCoordinate"@, sfield("F2DOT14"@, JsonV::F2Dot14(i16_at(t, p)), p, 2)),
            ("toCoordinate"@, sfield("F2DOT14"@, JsonV::F2Dot14(i16_at(t, p + 2)), p + 2, 2)),
        ],
    )
}

/// An axis value map shows the coordinate it maps from, read at its first
/// byte, then the coordinate it maps to, read two bytes later.
pub proof fn value_map_fields_read_their_bytes(t: Seq<u8>, p: int)
    ensures
        value_map(t, p)->Obj_0 == seq![
            ("fromCoordinate"@, sfield("F2DOT14"@, JsonV::F2Dot14(i16_at(t, p)), p, 2)),
            ("toCoordinate"@, sfield("F2DOT14"@, JsonV::F2Dot14(i16_at(t, p + 2)), p + 2, 2)),
        ],
{
}

/// The segment map at `pos`, described.
pub open spec fn segment_value(t: Seq<u8>, pos: int) -> JsonV {
    let n = u16_at(t, pos);
    JsonV::Obj(
        seq![
            ("positionMapCount"@, sfield("uint16"@, JsonV::Num(n), pos, 2)),
            (
                "axisValueMaps"@,
                sfield("AxisValueMap[]"@, JsonV::Arr(Seq::new(n as nat, |i: int| value_map(t, pos + 2 + 4 * i))), pos + 2, 4 * n),
            ),
        ],
    )
}

/// A segment map at `pos` can be read whole.
pub open spec fn segment_fits(t: Seq<u8>, pos: int) -> bool {
    pos + 2 <= t.len() && pos + 2 + 4 * u16_at(t, pos) <= t.len()
}

/// Up to `k` segment maps from `pos` on, as long as each can be read whole.
pub open spec fn segment_maps(t: Seq<u8>, pos: int, k: int) -> Seq<JsonV>
    decreases k,
{
    if k <= 0 || !segment_fits(t, pos) {
        seq![]
    } else {
        seq![segment_value(t, pos)] + segment_maps(t, pos + 2 + 4 * u16_at(t, pos), k - 1)
    }
}

/// Where the segment maps read from `pos` end.
pub open spec fn segment_maps_end(t: Seq<u8>, pos: int, k: int) -> int
    decreases k,
{
    if k <= 0 || !segment_fits(t, pos) {
        pos
    } else {
        segment_maps_end(t, pos + 2 + 4 * u16_at(t, pos), k - 1)
    }
}

/// Where `k` segment maps from `pos` end by their counts, where each count
/// can be read.
pub open spec fn counted_end(t: Seq<u8>, pos: int, k: int) -> Option<int>
    decreases k,
{
    if k <= 0 {
        Some(pos)
    } else if pos + 2 > t.len() {
        None
    } else {
        counted_end(t, pos + 2 + 4 * u16_at(t, pos), k - 1)
    }
}

/// Where the version-2 offsets stand: after the segment maps as counted, or
/// right after the header where they cannot be counted.
pub open spec fn v2_pos(t: Seq<u8>) -> int {
    match counted_end(t, 8, u16_at(t, 6)) {
        Some(e) => e,
        None => 8,
    }
}

/// The axis index map offset of a version-2 table, where it can be read.
pub open spec fn index_map_offset(t: Seq<u8>) -> Option<int> {
    if u16_at(t, 0) == 2 && v2_pos(t) + 4 <= t.len() { Some(u32_at(t, v2_pos(t))) } else { None }
}

/// The variation store offset of a version-2 table, where it can be read.
pub open spec fn var_store_offset(t: Seq<u8>) -> Option<int> {
    if u16_at(t, 0) == 2 && v2_pos(t) + 8 <= t.len() { Some(u32_at(t, v2_pos(t) + 4)) } else { None }
}

/// Why a variation store at `w` cannot be described, if it cannot.
pub open spec fn store_at_error(t: Seq<u8>, w: int) -> Option<Seq<char>> {
    if w + 8 > t.len() {
        Some(out_of_bounds())
    } else {
        store_error(t.subrange(w, t.len() as int))
    }
}

/// Why the axis variations table cannot be described, if it cannot.
pub open spec fn avar_error(t: Seq<u8>) -> Option<Seq<char>> {
    if t.len() < 8 {
        Some(out_of_bounds())
    } else if index_map_offset(t) matches Some(v) && v != 0 && index_map_error(t, v) is Some {
        index_map_error(t, index_map_offset(t)->0)
    } else if var_store_offset(t) matches Some(w) && w != 0 {
        store_at_error(t, var_store_offset(t)->0)
    } else {
        None
    }
}

/// The version-2 fields of the table, the first shown at `o`.
pub open spec fn v2_entries(t: Seq<u8>, o: int) -> Seq<(Seq<char>, JsonV)> {
    let index_map: Seq<(Seq<char>, JsonV)> = match index_map_offset(t) {
        None => seq![],
        Some(v) => seq![("axisIndexMapOffset"@, sfield("Offset32"@, JsonV::Num(v), o, 4))] + if v != 0 {
            seq![("axisIndexMap"@, sfield("DeltaSetIndexMap"@, index_map_value(t, v), v, index_map_len(t, v)))]
        } else {
            seq![]
        },
    };
    let o2 = if index_map_offset(t) is Some { o + 4 } else { o };
    let store: Seq<(Seq<char>, JsonV)> = match var_store_offset(t) {
        None => seq![],
        Some(w) => seq![("varStoreOffset"@, sfield("Offset32"@, JsonV::Num(w), o2, 4))] + if w != 0 {
            let s = t.subrange(w, t.len() as int);
            seq![("varStore"@, sfield("ItemVariationStore"@, store_value(s, w), w, store_length(s)))]
        } else {
            seq![]
        },
    };
    index_map + store
}

/// The axis variations table, described: its header, its segment maps, and
/// in version 2 its axis index map and variation store with their offsets.
pub open spec fn spec_parse_table(t: Seq<u8>) -> Result<JsonV, Seq<char>> {
    match avar_error(t) {
        Some(e) => Err(e),
        None => {
            let ac = u16_at(t, 6);
            let o = segment_maps_end(t, 8, ac);
            let head = seq![
                ("majorVersion"@, sfield("uint16"@, JsonV::Num(u16_at(t, 0)), 0, 2)),
                ("minorVersion"@, sfield("uint16"@, JsonV::Num(u16_at(t, 2)), 2, 2)),
                ("reserved"@, sfield("uint16"@, JsonV::Num(u16_at(t, 4)), 4, 2)),
                ("axisCount"@, sfield("uint16"@, JsonV::Num(ac), 6, 2)),
                ("axisSegmentMaps"@, sfield("SegmentMaps[]"@, JsonV::Arr(segment_maps(t, 8, ac)), 8, o - 8)),
            ];
            Ok(JsonV::Obj(head + v2_entries(t, o)))
        },
    }
}

} // verus!

verus! {

/// Describes the segment map at `pos`.
pub fn parse_segment_map(t: &[u8], pos: usize) -> (r: Json)
    requires
        segment_fits(t@, pos as int),
        small_len(t@.len() as int),
    ensures
        r.jv() == segment_value(t@, pos as int),
{
    let n = be_u16(t, pos) as usize;
    let ghost want = Seq::new(n as nat, |i: int| value_map(t@, pos + 2 + 4 * i));
    let mut maps = new_arr();
    let mut i: usize = 0;
    while i < n
        invariant
            i <= n,
            pos + 2 + 4 * n <= t@.len(),
            small_len(t@.len() as int),
            want == Seq::new(n as nat, |i: int| value_map(t@, pos + 2 + 4 * i)),
            jv_seq(maps@) == want.take(i as int),
        decreases n - i,
    {
        let p = pos + 2 + 4 * i;
        let mut m = new_obj();
        push_entry(&mut m, "fromCoordinate", parsed_field("F2DOT14", Json::F2Dot14(be_i16(t, p)), p, 2));
        push_entry(&mut m, "toCoordinate", parsed_field("F2DOT14", Json::F2Dot14(be_i16(t, p + 2)), p + 2, 2));
        assert(jv_entries(m@) =~= want[i as int]->Obj_0);
        push_item(&mut maps, jobj(m));
        assert(want.take(i + 1) =~= want.take(i as int).push(want[i as int]));
        i = i + 1;
    }
    assert(want.take(n as int) =~= want);
    let mut o = new_obj();
    push_entry(&mut o, "positionMapCount", parsed_field("uint16", jnum(n as u64), pos, 2));
    push_entry(&mut o, "axisValueMaps", parsed_field("AxisValueMap[]", jarr(maps), pos + 2, 4 * n));
    assert(jv_entries(o@) =~= segment_value(t@, pos as int)->Obj_0);
    jobj(o)
}

fn v2_pos_exec(t: &[u8]) -> (r: u64)
    requires
        t@.len() >= 8,
        small_len(t@.len() as int),
    ensures
        r == v2_pos(t@),
        r <= 8 + 0xFFFF * 262142,
{
    let ac = be_u16(t, 6) as u64;
    let mut pos: u64 = 8;
    let mut k: u64 = 0;
    while k < ac
        invariant
            k <= ac,
            ac == u16_at(t@, 6),
            pos <= 8 + k * 262142,
            counted_end(t@, 8, ac as int) == counted_end(t@, pos as int, ac - k),
            small_len(t@.len() as int),
        decreases ac - k,
    {
        if pos + 2 > t.len() as u64 {
            return 8;
        }
        let n = be_u16(t, pos as usize) as u64;
        assert(pos + 2 + 4 * n <= 8 + (k + 1) * 262142) by (nonlinear_arith)
            requires pos <= 8 + k * 262142, n <= 0xFFFF;
        pos = pos + 2 + 4 * n;
        k = k + 1;
    }
    pos
}

/// Describes the segment maps; returns them and where they end.
fn read_segment_maps(t: &[u8]) -> (r: (Vec<Json>, usize))
    requires
        t@.len() >= 8,
        small_len(t@.len() as int),
    ensures
        jv_seq(r.0@) == segment_maps(t@, 8, u16_at(t@, 6)),
        r.1 == segment_maps_end(t@, 8, u16_at(t@, 6)),
        8 <= r.1 <= t@.len(),
{
    let ac = be_u16(t, 6) as usize;
    let mut maps = new_arr();
    let mut pos: usize = 8;
    let mut k: usize = 0;
    while k < ac && pos + 2 <= t.len() && pos + 2 + 4 * (be_u16(t, pos) as usize) <= t.len()
        invariant
            k <= ac,
            ac == u16_at(t@, 6),
            8 <= pos <= t@.len(),
            small_len(t@.len() as int),
            jv_seq(maps@) + segment_maps(t@, pos as int, ac - k) == segment_maps(t@, 8, ac as int),
            segment_maps_end(t@, pos as int, ac - k) == segment_maps_end(t@, 8, ac as int),
        decreases ac - k,
    {
        let ghost prev = jv_seq(maps@);
        let m = parse_segment_map(t, pos);
        push_item(&mut maps, m);
        let next = pos + 2 + 4 * (be_u16(t, pos) as usize);
        assert(jv_seq(maps@) + segment_maps(t@, next as int, ac - k - 1) =~= prev + segment_maps(t@, pos as int, ac - k));
        pos = next;
        k = k + 1;
    }
    assert(segment_maps(t@, pos as int, ac - k) =~= Seq::<JsonV>::empty());
    assert(jv_seq(maps@) =~= segment_maps(t@, 8, ac as int));
    (maps, pos)
}

/// Describes the version-2 fields, the first shown at `o`; or gives why the
/// table cannot be described.
fn read_v2_fields(t: &[u8], o: usize) -> (r: Result<Vec<(String, Json)>, String>)
    requires
        t@.len() >= 8,
        o <= t@.len(),
        small_len(t@.len() as int),
    ensures
        match r {
            Ok(v) => avar_error(t@) is None && jv_entries(v@) == v2_entries(t@, o as int),
            Err(e) => avar_error(t@) == Some(e@),
        },
{
    let p = v2_pos_exec(t);
    let v2 = be_u16(t, 0) == 2;
    let aim: Option<usize> = if v2 && p + 4 <= t.len() as u64 { Some(be_u32(t, p as usize) as usize) } else { None };
    let vso: Option<usize> = if v2 && p + 8 <= t.len() as u64 { Some(be_u32(t, (p + 4) as usize) as usize) } else { None };
    assert(aim matches Some(v) ==> index_map_offset(t@) == Some(v as int));
    assert(aim is None ==> index_map_offset(t@) is None);
    assert(vso matches Some(w) ==> var_store_offset(t@) == Some(w as int));
    assert(vso is None ==> var_store_offset(t@) is None);
    let mut f = new_obj();
    let mut off = o;
    match aim {
        Some(v) => {
            if v != 0 {
                match index_map_error_text(t, v) {
                    Some(e) => return Err(e),
                    None => {},
                }
            }
            push_entry(&mut f, "axisIndexMapOffset", parsed_field("Offset32", jnum(v as u64), off, 4));
            off = off + 4;
            if v != 0 {
                let mv = parse_delta_set_index_map(t, v);
                let ml = index_map_length(t, v);
                push_entry(&mut f, "axisIndexMap", parsed_field_wide("DeltaSetIndexMap", mv, v as u64, ml));
            }
        },
        None => {},
    }
    match vso {
        Some(w) => {
            if w != 0 {
                if w > t.len() || t.len() - w < 8 {
                    return Err(text("An offset was out of bounds"));
                }
                let s = slice_subrange(t, w, t.len());
                let j = match parse_item_variation_store(s, w) {
                    Err(e) => return Err(e),
                    Ok(j) => j,
                };
                let len = item_variation_store_length(s);
                push_entry(&mut f, "varStoreOffset", parsed_field("Offset32", jnum(w as u64), off, 4));
                push_entry(&mut f, "varStore", parsed_field_wide("ItemVariationStore", j, w as u64, len));
            } else {
                push_entry(&mut f, "varStoreOffset", parsed_field("Offset32", jnum(w as u64), off, 4));
            }
        },
        None => {},
    }
    assert(jv_entries(f@) =~= v2_entries(t@, o as int));
    Ok(f)
}

/// The axis variations table, described.
pub fn parse_table(t: &[u8]) -> (r: Result<Json, String>)
    requires
        small_len(t@.len() as int),
    ensures
        parsed_view(r) == spec_parse_table(t@),
{
    if t.len() < 8 {
        return Err(text("An offset was out of bounds"));
    }
    let (maps, pos) = read_segment_maps(t);
    let mut tail = match read_v2_fields(t, pos) {
        Err(e) => return Err(e),
        Ok(v) => v,
    };
    let mut o = new_obj();
    push_entry(&mut o, "majorVersion", parsed_field("uint16", jnum(be_u16(t, 0) as u64), 0, 2));
    push_entry(&mut o, "minorVersion", parsed_field("uint16", jnum(be_u16(t, 2) as u64), 2, 2));
    push_entry(&mut o, "reserved", parsed_field("uint16", jnum(be_u16(t, 4) as u64), 4, 2));
    push_entry(&mut o, "axisCount", parsed_field("uint16", jnum(be_u16(t, 6) as u64), 6, 2));
    push_entry(&mut o, "axisSegmentMaps", parsed_field("SegmentMaps[]", jarr(maps), 8, pos - 8));
    let ghost before = jv_entries(o@);
    let ghost tv = jv_entries(tail@);
    o.append(&mut tail);
    assert(jv_entries(o@) =~= before + tv);
    assert(jv_entries(o@) =~= spec_parse_table(t@)->Ok_0->Obj_0);
    Ok(jobj(o))
}

pub open spec fn table_tag() -> Seq<u8> {
    seq![97u8, 118u8, 97u8, 114u8]
}

/// The `avar` table of a font, described.
pub open spec fn spec_parse(font: Seq<u8>) -> Result<JsonV, Seq<char>> {
    match spec_load(font, table_tag()) {
        Err(e) => Err(e),
        Ok(t) => spec_parse_table(t),
    }
}

/// Describes the `avar` table of a font.
pub fn parse(font: &[u8]) -> (r: Result<Json, String>)
    requires
        small_len(font@.len() as int),
    ensures
        parsed_view(r) == spec_parse(font@),
{
    let tag: Vec<u8> = vec![97u8, 118u8, 97u8, 114u8];
    assert(tag@ =~= table_tag());
    match load_table(font, tag.as_slice()) {
        Err(e) => Err(e),
        Ok(t) => parse_table(t.as_slice()),
    }
}

} // verus!
