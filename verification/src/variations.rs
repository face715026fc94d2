use vstd::prelude::*;
use crate::json::{
    jarr, jint, jnum, jobj, jv_entries, jv_seq, new_arr, new_obj, parsed_field, parsed_field_sum,
    parsed_field_wide, push_entry, push_item, sfield, sfield_sum, text, Json, JsonV, span_within,
};
use crate::font::out_of_bounds;
use crate::reader::{be_i16, be_i32, be_u16, be_u32, i16_at, i32_at, small_len, u16_at, u32_at};
use crate::text::{dec, dec_string, hex, hex_0x, hex_0x_string, hex_string};
use vstd::string::StringExecFns;

verus! {

// ---- Item variation store: where it cannot be read ----

pub open spec fn region_list_offset(s: Seq<u8>) -> int {
    u32_at(s, 2)
}

/// The number of item variation data offsets read: all that the store
/// states, or none where they run past the data.
pub open spec fn data_count_read(s: Seq<u8>) -> int {
    if 8 + 4 * u16_at(s, 6) <= s.len() { u16_at(s, 6) } else { 0 }
}

pub open spec fn data_offset(s: Seq<u8>, i: int) -> int {
    u32_at(s, 8 + 4 * i)
}

/// An item variation data subtable at `o` that is not null and cannot be read.
pub open spec fn data_unreadable(s: Seq<u8>, o: int) -> bool {
    o != 0 && o + 6 > s.len()
}

/// Some item variation data subtable from `i` to `n` cannot be read.
pub open spec fn some_data_unreadable(s: Seq<u8>, n: int, i: int) -> bool
    decreases n - i,
{
    if i < 0 || i >= n {
        false
    } else {
        data_unreadable(s, data_offset(s, i)) || some_data_unreadable(s, n, i + 1)
    }
}

/// Why an item variation store (its data `s` reaching to the end of the
/// table that holds it) cannot be described, if it cannot: its region list
/// offset is null or its region list lies past the data, or one of its
/// data subtables does.
pub open spec fn store_error(s: Seq<u8>) -> Option<Seq<char>> {
    if region_list_offset(s) == 0 {
        Some("An offset was unexpectedly null"@)
    } else if region_list_offset(s) + 4 > s.len() {
        Some(out_of_bounds())
    } else if some_data_unreadable(s, data_count_read(s), 0) {
        Some(out_of_bounds())
    } else {
        None
    }
}

// ---- Variation region list ----

pub open spec fn coords_value(s: Seq<u8>, p: int, off: int) -> JsonV {
    JsonV::Obj(
        seq![
            ("startCoord"@, sfield("F2DOT14"@, JsonV::F2Dot14(i16_at(s, p)), off, 2)),
            ("peakCoord"@, sfield("F2DOT14"@, JsonV::F2Dot14(i16_at(s, p + 2)), off + 2, 2)),
            ("endCoord"@, sfield("F2DOT14"@, JsonV::F2Dot14(i16_at(s, p + 4)), off + 4, 2)),
        ],
    )
}

/// A region of `ac` axes read at `p`, shown at `off`.
pub open spec fn region_value(s: Seq<u8>, p: int, ac: int, off: int) -> JsonV {
    JsonV::Obj(
        seq![
            (
                "regionAxes"@,
                sfield(
                    "RegionAxisCoordinates[]"@,
                    JsonV::Arr(Seq::new(ac as nat, |j: int| coords_value(s, p + 6 * j, off + 6 * j))),
                    off,
                    6 * ac,
                ),
            ),
        ],
    )
}

/// The number of regions read: all, where there are axes and the regions
/// lie within the data, else none.
pub open spec fn regions_read(s: Seq<u8>, r: int) -> int {
    let ac = u16_at(s, r);
    let rc = u16_at(s, r + 2);
    if ac > 0 && r + 4 + rc * (6 * ac) <= s.len() { rc } else { 0 }
}

/// The region list at `r`, shown at `rb`.
pub open spec fn region_list_value(s: Seq<u8>, r: int, rb: int) -> JsonV {
    let ac = u16_at(s, r);
    let rc = u16_at(s, r + 2);
    JsonV::Obj(
        seq![
            ("axisCount"@, sfield("uint16"@, JsonV::Num(ac), rb, 2)),
            ("regionCount"@, sfield("uint16"@, JsonV::Num(rc), rb + 2, 2)),
            (
                "variationRegions"@,
                sfield(
                    "VariationRegion[]"@,
                    JsonV::Arr(
                        Seq::new(
                            regions_read(s, r) as nat,
                            |i: int| region_value(s, r + 4 + i * (6 * ac), ac, rb + 4 + i * (6 * ac)),
                        ),
                    ),
                    rb + 4,
                    rc * (6 * ac),
                ),
            ),
        ],
    )
}

/// The bytes the region list at `r` covers, by its counts.
pub open spec fn region_list_len(s: Seq<u8>, r: int) -> int {
    4 + u16_at(s, r + 2) * (6 * u16_at(s, r))
}

// ---- Item variation data ----

/// The number of deltas stored as words.
pub open spec fn word_count(wdc: int) -> int {
    wdc % 0x8000
}

pub open spec fn long_words(wdc: int) -> bool {
    wdc >= 0x8000
}

/// The bytes of one delta set row.
pub open spec fn row_len(wdc: int, ric: int) -> int {
    let l = word_count(wdc);
    let rest = if ric > l { ric - l } else { 0 };
    if long_words(wdc) { 4 * l + 2 * rest } else { 2 * l + rest }
}

/// Where delta `j` stands within its row, and how many bytes it takes.
pub open spec fn delta_pos(wdc: int, j: int) -> int {
    let l = word_count(wdc);
    if long_words(wdc) {
        if j < l { 4 * j } else { 4 * l + 2 * (j - l) }
    } else {
        if j < l { 2 * j } else { 2 * l + (j - l) }
    }
}

pub open spec fn delta_width(wdc: int, j: int) -> int {
    let l = word_count(wdc);
    if long_words(wdc) {
        if j < l { 4 } else { 2 }
    } else {
        if j < l { 2 } else { 1 }
    }
}

pub open spec fn width_type(w: int) -> Seq<char> {
    if w == 4 {
        "int32"@
    } else if w == 2 {
        "int16"@
    } else {
        "int8"@
    }
}

/// The signed value `w` bytes wide at `p`.
pub open spec fn signed_at(s: Seq<u8>, p: int, w: int) -> int {
    if w == 4 {
        i32_at(s, p)
    } else if w == 2 {
        i16_at(s, p)
    } else if s[p] >= 128 {
        s[p] - 256
    } else {
        s[p] as int
    }
}

pub open spec fn delta_value(s: Seq<u8>, row: int, wdc: int, j: int, row_off: int) -> JsonV {
    let w = delta_width(wdc, j);
    sfield(width_type(w), JsonV::Num(signed_at(s, row + delta_pos(wdc, j), w)), row_off + delta_pos(wdc, j), w)
}

pub open spec fn ivd_fields(s: Seq<u8>, o: int) -> (int, int, int) {
    (u16_at(s, o), u16_at(s, o + 2), u16_at(s, o + 4))
}

/// The region indexes are read.
pub open spec fn indexes_present(s: Seq<u8>, o: int) -> bool {
    o + 6 + 2 * u16_at(s, o + 4) <= s.len()
}

/// The delta sets are read.
pub open spec fn deltas_present(s: Seq<u8>, o: int) -> bool {
    let (ic, wdc, ric) = ivd_fields(s, o);
    o + 6 + 2 * ric + ic * row_len(wdc, ric) <= s.len()
}

pub open spec fn delta_set_value(s: Seq<u8>, o: int, x: int, dso: int) -> JsonV {
    let (ic, wdc, ric) = ivd_fields(s, o);
    let rl = row_len(wdc, ric);
    let row = o + 6 + 2 * ric + x * rl;
    let row_off = dso + x * rl;
    let deltas: Seq<JsonV> = if deltas_present(s, o) {
        Seq::new(ric as nat, |j: int| delta_value(s, row, wdc, j, row_off))
    } else {
        seq![]
    };
    JsonV::Obj(
        seq![
            ("type"@, JsonV::Str("DeltaSet"@)),
            ("name"@, JsonV::Str("Delta set "@ + dec(x as nat, 1))),
            (
                "value"@,
                JsonV::Obj(
                    seq![
                        (
                            "deltaData"@,
                            sfield(
                                if long_words(wdc) { "(int32 | int16)[]"@ } else { "(int16 | int8)[]"@ },
                                JsonV::Arr(deltas),
                                row_off,
                                rl,
                            ),
                        ),
                    ],
                ),
            ),
            ("offset"@, JsonV::Num(row_off)),
            ("length"@, JsonV::Num(rl)),
        ],
    )
}

pub open spec fn word_delta_summary(wdc: int) -> Seq<char> {
    hex_0x(wdc as nat, 4) + " (LONG_WORDS: "@ + (if long_words(wdc) { "true"@ } else { "false"@ }) + ", count: "@
        + dec(word_count(wdc) as nat, 1) + ")"@
}

/// The item variation data subtable at `o`, shown at `db`.
pub open spec fn ivd_value(s: Seq<u8>, o: int, db: int) -> JsonV {
    let (ic, wdc, ric) = ivd_fields(s, o);
    let k = if indexes_present(s, o) { ric } else { 0 };
    let dso = db + 6 + 2 * k;
    let ds_len = if deltas_present(s, o) { ic * row_len(wdc, ric) } else { 0 };
    JsonV::Obj(
        seq![
            ("itemCount"@, sfield("uint16"@, JsonV::Num(ic), db, 2)),
            ("wordDeltaCount"@, sfield_sum("uint16"@, JsonV::Num(wdc), db + 2, 2, word_delta_summary(wdc))),
            ("regionIndexCount"@, sfield("uint16"@, JsonV::Num(ric), db + 4, 2)),
            (
                "regionIndexes"@,
                sfield(
                    "uint16[]"@,
                    JsonV::Arr(Seq::new(k as nat, |i: int| sfield("uint16"@, JsonV::Num(u16_at(s, o + 6 + 2 * i)), db + 6 + 2 * i, 2))),
                    db + 6,
                    2 * k,
                ),
            ),
            (
                "deltaSets"@,
                sfield("DeltaSet[]"@, JsonV::Arr(Seq::new(ic as nat, |x: int| delta_set_value(s, o, x, dso))), dso, ds_len),
            ),
        ],
    )
}

/// The bytes an item variation data subtable covers, by its counts.
pub open spec fn ivd_len(s: Seq<u8>, o: int) -> int {
    let (ic, wdc, ric) = ivd_fields(s, o);
    6 + 2 * ric + ic * row_len(wdc, ric)
}

// ---- Item variation store ----

/// The least display offset of the non-null data subtables among the first `i`.
pub open spec fn data_start(s: Seq<u8>, base: int, i: int) -> Option<int>
    decreases i,
{
    if i <= 0 {
        None
    } else {
        let prev = data_start(s, base, i - 1);
        let o = data_offset(s, i - 1);
        if o == 0 {
            prev
        } else {
            match prev {
                None => Some(base + o),
                Some(x) => Some(if base + o < x { base + o } else { x }),
            }
        }
    }
}

/// The furthest display end of the non-null data subtables among the first `i`.
pub open spec fn data_end(s: Seq<u8>, base: int, i: int) -> int
    decreases i,
{
    if i <= 0 {
        0
    } else {
        let prev = data_end(s, base, i - 1);
        let o = data_offset(s, i - 1);
        if o == 0 {
            prev
        } else {
            let e = base + o + ivd_len(s, o);
            if e > prev { e } else { prev }
        }
    }
}

pub open spec fn data_item(s: Seq<u8>, base: int, i: int) -> JsonV {
    let o = data_offset(s, i);
    if o == 0 { JsonV::Null } else { ivd_value(s, o, base + o) }
}

/// An item variation store that can be read (its data `s`), shown at `base`.
pub open spec fn store_value(s: Seq<u8>, base: int) -> JsonV {
    let n = data_count_read(s);
    let r = region_list_offset(s);
    let (start, end) = match data_start(s, base, n) {
        Some(x) => (x, data_end(s, base, n)),
        None => (base + 8 + 4 * n, base + 8 + 4 * n),
    };
    JsonV::Obj(
        seq![
            ("format"@, sfield("uint16"@, JsonV::Num(u16_at(s, 0)), base, 2)),
            ("variationRegionListOffset"@, sfield("Offset32"@, JsonV::Num(r), base + 2, 4)),
            ("itemVariationDataCount"@, sfield("uint16"@, JsonV::Num(u16_at(s, 6)), base + 6, 2)),
            (
                "itemVariationDataOffsets"@,
                sfield(
                    "Offset32[]"@,
                    JsonV::Arr(Seq::new(n as nat, |i: int| sfield("Offset32"@, JsonV::Num(data_offset(s, i)), base + 8 + 4 * i, 4))),
                    base + 8,
                    4 * n,
                ),
            ),
            ("variationRegionList"@, sfield("VariationRegionList"@, region_list_value(s, r, base + r), base + r, region_list_len(s, r))),
            (
                "itemVariationData"@,
                sfield("ItemVariationData[]"@, JsonV::Arr(Seq::new(n as nat, |i: int| data_item(s, base, i))), start, end - start),
            ),
        ],
    )
}

/// The furthest end of the readable non-null data subtables among the first `i`, at least `m`.
pub open spec fn data_extent(s: Seq<u8>, i: int, m: int) -> int
    decreases i,
{
    if i <= 0 {
        m
    } else {
        let prev = data_extent(s, i - 1, m);
        let o = data_offset(s, i - 1);
        if o == 0 || o + 6 > s.len() {
            prev
        } else if o + ivd_len(s, o) > prev {
            o + ivd_len(s, o)
        } else {
            prev
        }
    }
}

/// The bytes an item variation store covers: its header and offsets, its
/// region list and its data subtables, by their counts.
pub open spec fn store_length(s: Seq<u8>) -> int {
    let head = if 8 + 4 * u16_at(s, 6) <= s.len() { 8 + 4 * u16_at(s, 6) } else { 0 };
    let r = region_list_offset(s);
    let with_regions = if r != 0 && r + 4 <= s.len() && r + region_list_len(s, r) > head {
        r + region_list_len(s, r)
    } else {
        head
    };
    data_extent(s, data_count_read(s), with_regions)
}

// ---- Delta-set index map ----

/// Why the delta-set index map at `m` cannot be read, if it cannot.
pub open spec fn index_map_error(t: Seq<u8>, m: int) -> Option<Seq<char>> {
    if m + 1 > t.len() {
        Some(out_of_bounds())
    } else if t[m] == 0 {
        if m + 4 > t.len() { Some(out_of_bounds()) } else { None }
    } else if t[m] == 1 {
        if m + 6 > t.len() { Some(out_of_bounds()) } else { None }
    } else {
        Some("Invalid format '"@ + dec(t[m] as nat, 1) + "'"@)
    }
}

/// The entry format bits that the format defines.
pub open spec fn entry_bits(t: Seq<u8>, m: int) -> int {
    t[m + 1] as int % 64
}

pub open spec fn entry_size(bits: int) -> int {
    bits / 16 + 1
}

pub open spec fn map_count(t: Seq<u8>, m: int) -> int {
    if t[m] == 0 { u16_at(t, m + 2) } else { u32_at(t, m + 2) }
}

pub open spec fn map_header(t: Seq<u8>, m: int) -> int {
    if t[m] == 0 { 4 } else { 6 }
}

/// The number of map bytes read: all, or none where they run past the data.
pub open spec fn map_bytes(t: Seq<u8>, m: int) -> int {
    let n = entry_size(entry_bits(t, m)) * map_count(t, m);
    if m + map_header(t, m) + n <= t.len() { n } else { 0 }
}

pub open spec fn entry_format_summary(bits: int) -> Seq<char> {
    "0x"@ + hex(bits as nat, 1) + " (entry size: "@ + dec(entry_size(bits) as nat, 1) + " bytes, inner index bits: "@
        + dec((bits % 16 + 1) as nat, 1) + ")"@
}

/// A readable delta-set index map at `m`, described.
pub open spec fn index_map_value(t: Seq<u8>, m: int) -> JsonV {
    let h = map_header(t, m);
    let bits = entry_bits(t, m);
    JsonV::Obj(
        seq![
            ("format"@, sfield("uint8"@, JsonV::Num(t[m] as int), m, 1)),
            ("entryFormat"@, sfield_sum("uint8"@, JsonV::Num(bits), m + 1, 1, entry_format_summary(bits))),
            (
                "mapCount"@,
                if t[m] == 0 {
                    sfield("uint16"@, JsonV::Num(map_count(t, m)), m + 2, 2)
                } else {
                    sfield("uint32"@, JsonV::Num(map_count(t, m)), m + 2, 4)
                },
            ),
            (
                "mapData"@,
                sfield(
                    "uint8[]"@,
                    JsonV::Arr(Seq::new(map_bytes(t, m) as nat, |i: int| sfield("uint8"@, JsonV::Num(t[m + h + i] as int), m + h + i, 1))),
                    m + h,
                    map_bytes(t, m),
                ),
            ),
        ],
    )
}

/// The bytes a delta-set index map covers: its header and its map data,
/// where they lie within the data, else none.
pub open spec fn index_map_len(t: Seq<u8>, m: int) -> int {
    let n = entry_size(entry_bits(t, m)) * map_count(t, m);
    if m + map_header(t, m) + n <= t.len() { map_header(t, m) + n } else { 0 }
}

} // verus!

verus! {

/// The deltas of a delta set row lie within the row, each starting where
/// the one before it ends; where the row holds at least as many deltas as
/// words, the last one ends where the row ends.
pub proof fn lemma_delta_in_row(wdc: int, ric: int, j: int)
    requires
        0 <= j < ric,
        0 <= wdc < 0x10000,
    ensures
        0 <= delta_pos(wdc, j),
        1 <= delta_width(wdc, j),
        delta_pos(wdc, j) + delta_width(wdc, j) <= row_len(wdc, ric),
        delta_pos(wdc, j + 1) == delta_pos(wdc, j) + delta_width(wdc, j),
        ric >= word_count(wdc) ==> delta_pos(wdc, ric) == row_len(wdc, ric),
{
}

/// Every delta that a delta set shows lies within the bytes of its row, as
/// the delta set states them.
pub proof fn delta_set_deltas_lie_within_row(s: Seq<u8>, o: int, x: int, dso: int)
    ensures
        ({
            let v = delta_set_value(s, o, x, dso);
            let row_off = v->Obj_0[3].1->Num_0;
            let rl = v->Obj_0[4].1->Num_0;
            let deltas = v->Obj_0[2].1->Obj_0[0].1->Obj_0[1].1->Arr_0;
            forall|j: int| 0 <= j < deltas.len() ==> span_within(#[trigger] deltas[j], row_off, row_off + rl)
        }),
{
    let (ic, wdc, ric) = ivd_fields(s, o);
    let v = delta_set_value(s, o, x, dso);
    let deltas = v->Obj_0[2].1->Obj_0[0].1->Obj_0[1].1->Arr_0;
    assert forall|j: int| 0 <= j < deltas.len() implies span_within(
        #[trigger] deltas[j],
        v->Obj_0[3].1->Num_0,
        v->Obj_0[3].1->Num_0 + v->Obj_0[4].1->Num_0,
    ) by {
        lemma_delta_in_row(wdc, ric, j);
    }
}

fn describe_coords(s: &[u8], p: usize, base: usize) -> (r: Json)
    requires
        p + 6 <= s@.len(),
        small_len(base + s@.len()),
    ensures
        r.jv() == coords_value(s@, p as int, base + p),
{
    let off = base + p;
    let mut o = new_obj();
    push_entry(&mut o, "startCoord", parsed_field("F2DOT14", Json::F2Dot14(be_i16(s, p)), off, 2));
    push_entry(&mut o, "peakCoord", parsed_field("F2DOT14", Json::F2Dot14(be_i16(s, p + 2)), off + 2, 2));
    push_entry(&mut o, "endCoord", parsed_field("F2DOT14", Json::F2Dot14(be_i16(s, p + 4)), off + 4, 2));
    assert(jv_entries(o@) =~= coords_value(s@, p as int, base + p)->Obj_0);
    jobj(o)
}

/// Describes a variation region of `ac` axes read at `p`, shown at `base + p`.
pub fn parse_variation_region(s: &[u8], p: usize, ac: usize, base: usize) -> (r: Json)
    requires
        p + 6 * ac <= s@.len(),
        small_len(base + s@.len()),
    ensures
        r.jv() == region_value(s@, p as int, ac as int, base + p),
{
    let ghost off = base + p;
    let ghost want = Seq::new(ac as nat, |j: int| coords_value(s@, p + 6 * j, off + 6 * j));
    let mut axes = new_arr();
    let mut j: usize = 0;
    while j < ac
        invariant
            j <= ac,
            p + 6 * ac <= s@.len(),
            small_len(base + s@.len()),
            off == base + p,
            want == Seq::new(ac as nat, |j: int| coords_value(s@, p + 6 * j, off + 6 * j)),
            jv_seq(axes@) == want.take(j as int),
        decreases ac - j,
    {
        push_item(&mut axes, describe_coords(s, p + 6 * j, base));
        assert(want.take(j + 1) =~= want.take(j as int).push(want[j as int]));
        j = j + 1;
    }
    assert(want.take(ac as int) =~= want);
    let mut o = new_obj();
    push_entry(&mut o, "regionAxes", parsed_field("RegionAxisCoordinates[]", jarr(axes), base + p, 6 * ac));
    assert(jv_entries(o@) =~= region_value(s@, p as int, ac as int, base + p)->Obj_0);
    jobj(o)
}

/// Describes the region list at `r`, shown at `base + r`.
pub fn parse_variation_region_list(s: &[u8], r: usize, base: usize) -> (out: Json)
    requires
        r + 4 <= s@.len(),
        small_len(base + s@.len()),
    ensures
        out.jv() == region_list_value(s@, r as int, base + r),
{
    let ac = be_u16(s, r) as usize;
    let rc = be_u16(s, r + 2) as usize;
    let size = 6 * ac;
    assert(rc * size <= 0xFFFF * (6 * 0xFFFF)) by (nonlinear_arith)
        requires rc <= 0xFFFF, size <= 6 * 0xFFFF;
    let total: u64 = (rc as u64) * (size as u64);
    let nr: usize = if ac > 0 && (r as u64) + 4 + total <= s.len() as u64 { rc } else { 0 };
    let ghost rb = base + r;
    let ghost want = Seq::new(nr as nat, |i: int| region_value(s@, r + 4 + i * size, ac as int, rb + 4 + i * size));
    let mut regions = new_arr();
    let mut i: usize = 0;
    while i < nr
        invariant
            i <= nr,
            nr > 0 ==> r + 4 + nr * size <= s@.len(),
            size == 6 * ac,
            small_len(base + s@.len()),
            rb == base + r,
            want == Seq::new(nr as nat, |i: int| region_value(s@, r + 4 + i * size, ac as int, rb + 4 + i * size)),
            jv_seq(regions@) == want.take(i as int),
        decreases nr - i,
    {
        assert(i * size + size <= nr * size) by (nonlinear_arith)
            requires i < nr, size >= 0;
        let p = r + 4 + i * size;
        push_item(&mut regions, parse_variation_region(s, p, ac, base));
        assert(want.take(i + 1) =~= want.take(i as int).push(want[i as int]));
        i = i + 1;
    }
    assert(want.take(nr as int) =~= want);
    let rbx = base + r;
    let mut o = new_obj();
    push_entry(&mut o, "axisCount", parsed_field("uint16", jnum(ac as u64), rbx, 2));
    push_entry(&mut o, "regionCount", parsed_field("uint16", jnum(rc as u64), rbx + 2, 2));
    push_entry(&mut o, "variationRegions", parsed_field_wide("VariationRegion[]", jarr(regions), (rbx + 4) as u64, total));
    assert(nr == regions_read(s@, r as int));
    assert(jv_entries(o@) =~= region_list_value(s@, r as int, base + r)->Obj_0);
    jobj(o)
}

fn row_len_exec(wdc: u16, ric: u16) -> (r: u64)
    ensures
        r == row_len(wdc as int, ric as int),
        r <= 4 * 0x8000 + 2 * 0xFFFF,
{
    let l = (wdc & 0x7FFF) as u64;
    assert(wdc & 0x7FFF == wdc % 0x8000) by (bit_vector);
    let rest: u64 = if (ric as u64) > l { (ric as u64) - l } else { 0 };
    if wdc >= 0x8000 { 4 * l + 2 * rest } else { 2 * l + rest }
}

fn signed_exec(s: &[u8], p: usize, w: usize) -> (r: i64)
    requires
        w == 1 || w == 2 || w == 4,
        p + w <= s@.len(),
    ensures
        r == signed_at(s@, p as int, w as int),
{
    if w == 4 {
        be_i32(s, p) as i64
    } else if w == 2 {
        be_i16(s, p) as i64
    } else if s[p] >= 128 {
        s[p] as i64 - 256
    } else {
        s[p] as i64
    }
}

/// Describes delta set `x` of the item variation data at `o`, whose delta
/// sets are shown from `dso` on.
fn parse_delta_set(s: &[u8], o: usize, x: usize, dso: u64) -> (r: Json)
    requires
        o + 6 <= s@.len(),
        x < u16_at(s@, o as int),
        small_len(s@.len() as int),
        dso <= 0x4000_0000_0000_0000,
    ensures
        r.jv() == delta_set_value(s@, o as int, x as int, dso as int),
{
    let ic = be_u16(s, o);
    let wdc = be_u16(s, o + 2);
    let ric = be_u16(s, o + 4);
    let rl = row_len_exec(wdc, ric);
    assert((x as u64) * rl <= 0xFFFF * (4 * 0x8000 + 2 * 0xFFFF)) by (nonlinear_arith)
        requires x <= 0xFFFF, rl <= 4 * 0x8000 + 2 * 0xFFFF;
    let row_off: u64 = dso + (x as u64) * rl;
    let long = wdc >= 0x8000;
    let l: usize = (wdc & 0x7FFF) as usize;
    assert(wdc & 0x7FFF == wdc % 0x8000) by (bit_vector);
    let ghost row_i = o + 6 + 2 * ric + x * rl;
    let ghost want: Seq<JsonV> = if deltas_present(s@, o as int) {
        Seq::new(ric as nat, |j: int| delta_value(s@, row_i, wdc as int, j, row_off as int))
    } else {
        seq![]
    };
    let mut deltas = new_arr();
    assert((ic as u64) * rl <= 0xFFFF * (4 * 0x8000 + 2 * 0xFFFF)) by (nonlinear_arith)
        requires ic <= 0xFFFF, rl <= 4 * 0x8000 + 2 * 0xFFFF;
    let present = (o as u64) + 6 + 2 * (ric as u64) + (ic as u64) * rl <= s.len() as u64;
    if present {
        assert(x * rl + rl <= ic * rl) by (nonlinear_arith)
            requires x < ic, rl >= 0;
        let row: usize = o + 6 + 2 * (ric as usize) + x * (rl as usize);
        let mut j: usize = 0;
        let mut pos: usize = 0;
        assert(delta_pos(wdc as int, 0) == 0);
        while j < ric as usize
            invariant
                j <= ric,
                row == row_i,
                row + rl <= s@.len(),
                pos == delta_pos(wdc as int, j as int),
                l == word_count(wdc as int),
                long == long_words(wdc as int),
                rl == row_len(wdc as int, ric as int),
                small_len(s@.len() as int),
                row_off <= 0x4000_0000_0000_0000 + 0xFFFF * (4 * 0x8000 + 2 * 0xFFFF),
                deltas_present(s@, o as int),
                want == Seq::new(ric as nat, |j: int| delta_value(s@, row_i, wdc as int, j, row_off as int)),
                jv_seq(deltas@) == want.take(j as int),
            decreases ric - j,
        {
            proof {
                lemma_delta_in_row(wdc as int, ric as int, j as int);
            }
            let w: usize = if long {
                if j < l { 4 } else { 2 }
            } else {
                if j < l { 2 } else { 1 }
            };
            let ty = if w == 4 { "int32" } else if w == 2 { "int16" } else { "int8" };
            let v = signed_exec(s, row + pos, w);
            push_item(&mut deltas, parsed_field_wide(ty, jint(v), row_off + pos as u64, w as u64));
            assert(want.take(j + 1) =~= want.take(j as int).push(want[j as int]));
            pos = pos + w;
            j = j + 1;
        }
        assert(want.take(ric as int) =~= want);
    } else {
        assert(jv_seq(deltas@) =~= want);
    }
    let mut data = new_obj();
    let ty = if long { "(int32 | int16)[]" } else { "(int16 | int8)[]" };
    push_entry(&mut data, "deltaData", parsed_field_wide(ty, jarr(deltas), row_off, rl));
    let mut name = text("Delta set ");
    let d = dec_string(x as u64, 1);
    name.append(d.as_str());
    let mut r = new_obj();
    push_entry(&mut r, "type", Json::Str(text("DeltaSet")));
    push_entry(&mut r, "name", Json::Str(name));
    push_entry(&mut r, "value", jobj(data));
    push_entry(&mut r, "offset", jnum(row_off));
    push_entry(&mut r, "length", jnum(rl));
    assert(jv_entries(r@) =~= delta_set_value(s@, o as int, x as int, dso as int)->Obj_0);
    jobj(r)
}

} // verus!

verus! {

/// Describes the item variation data subtable at `o`, shown at `base + o`.
pub fn parse_item_variation_data(s: &[u8], o: usize, base: usize) -> (r: Json)
    requires
        o + 6 <= s@.len(),
        small_len(base + s@.len()),
    ensures
        r.jv() == ivd_value(s@, o as int, base + o),
{
    let ic = be_u16(s, o);
    let wdc = be_u16(s, o + 2);
    let ric = be_u16(s, o + 4);
    let db = base + o;
    let k: usize = if o + 6 + 2 * (ric as usize) <= s.len() { ric as usize } else { 0 };
    let dso = db + 6 + 2 * k;
    let rl = row_len_exec(wdc, ric);
    assert((ic as u64) * rl <= 0xFFFF * (4 * 0x8000 + 2 * 0xFFFF)) by (nonlinear_arith)
        requires ic <= 0xFFFF, rl <= 4 * 0x8000 + 2 * 0xFFFF;
    let ds_len: u64 = if (o as u64) + 6 + 2 * (ric as u64) + (ic as u64) * rl <= s.len() as u64 {
        (ic as u64) * rl
    } else {
        0
    };
    let mut f = new_obj();
    push_entry(&mut f, "itemCount", parsed_field("uint16", jnum(ic as u64), db, 2));
    let long = wdc >= 0x8000;
    let l = wdc & 0x7FFF;
    assert(wdc & 0x7FFF == wdc % 0x8000) by (bit_vector);
    let mut summary = hex_0x_string(wdc as u64, 4);
    summary.append(" (LONG_WORDS: ");
    summary.append(if long { "true" } else { "false" });
    summary.append(", count: ");
    let c = dec_string(l as u64, 1);
    summary.append(c.as_str());
    summary.append(")");
    proof {
        reveal_strlit(" (LONG_WORDS: ");
        reveal_strlit("true");
        reveal_strlit("false");
    }
    push_entry(&mut f, "wordDeltaCount", parsed_field_sum("uint16", jnum(wdc as u64), db + 2, 2, summary));
    push_entry(&mut f, "regionIndexCount", parsed_field("uint16", jnum(ric as u64), db + 4, 2));
    let ghost want_i = Seq::new(k as nat, |i: int| sfield("uint16"@, JsonV::Num(u16_at(s@, o + 6 + 2 * i)), db + 6 + 2 * i, 2));
    let mut indexes = new_arr();
    let mut i: usize = 0;
    while i < k
        invariant
            i <= k,
            o + 6 + 2 * k <= s@.len(),
            db == base + o,
            small_len(base + s@.len()),
            want_i == Seq::new(k as nat, |i: int| sfield("uint16"@, JsonV::Num(u16_at(s@, o + 6 + 2 * i)), db + 6 + 2 * i, 2)),
            jv_seq(indexes@) == want_i.take(i as int),
        decreases k - i,
    {
        push_item(&mut indexes, parsed_field("uint16", jnum(be_u16(s, o + 6 + 2 * i) as u64), db + 6 + 2 * i, 2));
        assert(want_i.take(i + 1) =~= want_i.take(i as int).push(want_i[i as int]));
        i = i + 1;
    }
    assert(want_i.take(k as int) =~= want_i);
    push_entry(&mut f, "regionIndexes", parsed_field("uint16[]", jarr(indexes), db + 6, 2 * k));
    let ghost want_d = Seq::new(ic as nat, |x: int| delta_set_value(s@, o as int, x, dso as int));
    let mut sets = new_arr();
    let mut x: usize = 0;
    while x < ic as usize
        invariant
            x <= ic,
            ic == u16_at(s@, o as int),
            o + 6 <= s@.len(),
            small_len(base + s@.len()),
            dso <= base + s@.len(),
            want_d == Seq::new(ic as nat, |x: int| delta_set_value(s@, o as int, x, dso as int)),
            jv_seq(sets@) == want_d.take(x as int),
        decreases ic - x,
    {
        push_item(&mut sets, parse_delta_set(s, o, x, dso as u64));
        assert(want_d.take(x + 1) =~= want_d.take(x as int).push(want_d[x as int]));
        x = x + 1;
    }
    assert(want_d.take(ic as int) =~= want_d);
    push_entry(&mut f, "deltaSets", parsed_field_wide("DeltaSet[]", jarr(sets), dso as u64, ds_len));
    assert(jv_entries(f@) =~= ivd_value(s@, o as int, base + o)->Obj_0);
    jobj(f)
}

fn ivd_len_exec(s: &[u8], o: usize) -> (r: u64)
    requires
        o + 6 <= s@.len(),
        small_len(s@.len() as int),
    ensures
        r == ivd_len(s@, o as int),
        r <= 6 + 2 * 0xFFFF + 0xFFFF * (4 * 0x8000 + 2 * 0xFFFF),
{
    let ic = be_u16(s, o);
    let wdc = be_u16(s, o + 2);
    let ric = be_u16(s, o + 4);
    let rl = row_len_exec(wdc, ric);
    assert((ic as u64) * rl <= 0xFFFF * (4 * 0x8000 + 2 * 0xFFFF)) by (nonlinear_arith)
        requires ic <= 0xFFFF, rl <= 4 * 0x8000 + 2 * 0xFFFF;
    6 + 2 * (ric as u64) + (ic as u64) * rl
}

/// Describes an item variation store (its data `s`, reaching to the end of
/// the table that holds it), shown at `base`; or gives why it cannot be.
pub fn parse_item_variation_store(s: &[u8], base: usize) -> (r: Result<Json, String>)
    requires
        s@.len() >= 8,
        small_len(base + s@.len()),
    ensures
        match r {
            Ok(j) => store_error(s@) is None && j.jv() == store_value(s@, base as int),
            Err(e) => store_error(s@) == Some(e@),
        },
{
    let rlo = be_u32(s, 2) as usize;
    if rlo == 0 {
        return Err(text("An offset was unexpectedly null"));
    }
    if rlo > s.len() || s.len() - rlo < 4 {
        return Err(text("An offset was out of bounds"));
    }
    let count = be_u16(s, 6) as usize;
    let n: usize = if 8 + 4 * count <= s.len() { count } else { 0 };
    let mut start: Option<usize> = None;
    let mut end: u64 = 0;
    let ghost want = Seq::new(n as nat, |i: int| data_item(s@, base as int, i));
    let mut items = new_arr();
    let mut i: usize = 0;
    while i < n
        invariant
            i <= n,
            n == data_count_read(s@),
            8 + 4 * n <= s@.len(),
            small_len(base + s@.len()),
            region_list_offset(s@) != 0,
            region_list_offset(s@) + 4 <= s@.len(),
            some_data_unreadable(s@, n as int, 0) == some_data_unreadable(s@, n as int, i as int),
            crate::stat::opt_int(start) == data_start(s@, base as int, i as int),
            start matches Some(x) ==> x <= base + s@.len(),
            end == data_end(s@, base as int, i as int),
            end <= base + s@.len() + 6 + 2 * 0xFFFF + 0xFFFF * (4 * 0x8000 + 2 * 0xFFFF),
            want == Seq::new(n as nat, |i: int| data_item(s@, base as int, i)),
            jv_seq(items@) == want.take(i as int),
        decreases n - i,
    {
        let o = be_u32(s, 8 + 4 * i) as usize;
        if o == 0 {
            push_item(&mut items, Json::Null);
        } else {
            if o > s.len() || s.len() - o < 6 {
                return Err(text("An offset was out of bounds"));
            }
            push_item(&mut items, parse_item_variation_data(s, o, base));
            let db = base + o;
            start = match start {
                None => Some(db),
                Some(x) => Some(if db < x { db } else { x }),
            };
            let e = (db as u64) + ivd_len_exec(s, o);
            if e > end {
                end = e;
            }
        }
        assert(want.take(i + 1) =~= want.take(i as int).push(want[i as int]));
        i = i + 1;
    }
    assert(want.take(n as int) =~= want);
    let (ds, de): (u64, u64) = match start {
        Some(x) => (x as u64, end),
        None => ((base + 8 + 4 * n) as u64, (base + 8 + 4 * n) as u64),
    };
    proof {
        if start is Some {
            lemma_data_end_covers(s@, base as int, n as int);
        }
    }
    let ghost want_o = Seq::new(n as nat, |i: int| sfield("Offset32"@, JsonV::Num(data_offset(s@, i)), base + 8 + 4 * i, 4));
    let mut offsets = new_arr();
    let mut j: usize = 0;
    while j < n
        invariant
            j <= n,
            8 + 4 * n <= s@.len(),
            small_len(base + s@.len()),
            want_o == Seq::new(n as nat, |i: int| sfield("Offset32"@, JsonV::Num(data_offset(s@, i)), base + 8 + 4 * i, 4)),
            jv_seq(offsets@) == want_o.take(j as int),
        decreases n - j,
    {
        push_item(&mut offsets, parsed_field("Offset32", jnum(be_u32(s, 8 + 4 * j) as u64), base + 8 + 4 * j, 4));
        assert(want_o.take(j + 1) =~= want_o.take(j as int).push(want_o[j as int]));
        j = j + 1;
    }
    assert(want_o.take(n as int) =~= want_o);
    let ac = be_u16(s, rlo) as u64;
    let rc = be_u16(s, rlo + 2) as u64;
    assert(rc * (6 * ac) <= 0xFFFF * (6 * 0xFFFF)) by (nonlinear_arith)
        requires rc <= 0xFFFF, ac <= 0xFFFF;
    let mut o = new_obj();
    push_entry(&mut o, "format", parsed_field("uint16", jnum(be_u16(s, 0) as u64), base, 2));
    push_entry(&mut o, "variationRegionListOffset", parsed_field("Offset32", jnum(rlo as u64), base + 2, 4));
    push_entry(&mut o, "itemVariationDataCount", parsed_field("uint16", jnum(count as u64), base + 6, 2));
    push_entry(&mut o, "itemVariationDataOffsets", parsed_field("Offset32[]", jarr(offsets), base + 8, 4 * n));
    let rl = parse_variation_region_list(s, rlo, base);
    push_entry(&mut o, "variationRegionList", parsed_field_wide("VariationRegionList", rl, (base + rlo) as u64, 4 + rc * (6 * ac)));
    push_entry(&mut o, "itemVariationData", parsed_field_wide("ItemVariationData[]", jarr(items), ds, de - ds));
    assert(jv_entries(o@) =~= store_value(s@, base as int)->Obj_0);
    Ok(jobj(o))
}

/// The furthest end of the non-null data subtables is not before their least start.
proof fn lemma_data_end_covers(s: Seq<u8>, base: int, i: int)
    requires
        data_start(s, base, i) is Some,
    ensures
        data_end(s, base, i) >= data_start(s, base, i)->0,
    decreases i,
{
    if i > 0 {
        let o = data_offset(s, i - 1);
        if data_start(s, base, i - 1) is Some {
            lemma_data_end_covers(s, base, i - 1);
        }
        assert(ivd_len(s, o) >= 0) by {
            let (ic, wdc, ric) = ivd_fields(s, o);
            assert(ic * row_len(wdc, ric) >= 0) by (nonlinear_arith)
                requires ic >= 0, row_len(wdc, ric) >= 0;
        }
    }
}

} // verus!

verus! {

/// The bytes an item variation store covers: its header and offsets, its
/// region list and its data subtables.
pub fn item_variation_store_length(s: &[u8]) -> (r: u64)
    requires
        s@.len() >= 8,
        small_len(s@.len() as int),
    ensures
        r == store_length(s@),
{
    let count = be_u16(s, 6) as usize;
    let head: u64 = if 8 + 4 * count <= s.len() { (8 + 4 * count) as u64 } else { 0 };
    let mut length = head;
    let rlo = be_u32(s, 2) as usize;
    if rlo != 0 && rlo <= s.len() && s.len() - rlo >= 4 {
        let ac = be_u16(s, rlo) as u64;
        let rc = be_u16(s, rlo + 2) as u64;
        assert(rc * (6 * ac) <= 0xFFFF * (6 * 0xFFFF)) by (nonlinear_arith)
            requires rc <= 0xFFFF, ac <= 0xFFFF;
        let e = (rlo as u64) + 4 + rc * (6 * ac);
        if e > length {
            length = e;
        }
    }
    let n: usize = if 8 + 4 * count <= s.len() { count } else { 0 };
    let ghost m = length;
    let mut i: usize = 0;
    while i < n
        invariant
            i <= n,
            8 + 4 * n <= s@.len(),
            small_len(s@.len() as int),
            length == data_extent(s@, i as int, m as int),
            length <= s@.len() + 4 + 0xFFFF * (6 * 0xFFFF) + 6 + 2 * 0xFFFF + 0xFFFF * (4 * 0x8000 + 2 * 0xFFFF),
        decreases n - i,
    {
        let o = be_u32(s, 8 + 4 * i) as usize;
        if o != 0 && o <= s.len() && s.len() - o >= 6 {
            let e = (o as u64) + ivd_len_exec(s, o);
            if e > length {
                length = e;
            }
        }
        i = i + 1;
    }
    length
}

/// Why the delta-set index map at `m` cannot be read, if it cannot.
pub fn index_map_error_text(t: &[u8], m: usize) -> (r: Option<String>)
    requires
        small_len(t@.len() as int),
    ensures
        crate::text::opt_string(r) == index_map_error(t@, m as int),
{
    if m >= t.len() {
        return Some(text("An offset was out of bounds"));
    }
    let f = t[m];
    if f == 0 {
        if t.len() - m < 4 { Some(text("An offset was out of bounds")) } else { None }
    } else if f == 1 {
        if t.len() - m < 6 { Some(text("An offset was out of bounds")) } else { None }
    } else {
        let mut s = text("Invalid format '");
        let d = dec_string(f as u64, 1);
        s.append(d.as_str());
        s.append("'");
        Some(s)
    }
}

fn map_bytes_exec(t: &[u8], m: usize) -> (r: (usize, u64))
    requires
        index_map_error(t@, m as int) is None,
        small_len(t@.len() as int),
    ensures
        r.0 == map_bytes(t@, m as int),
        r.1 == index_map_len(t@, m as int),
        m + map_header(t@, m as int) + r.0 <= t@.len(),
{
    let b = t[m + 1];
    let bits = b & 0x3F;
    assert(b & 0x3F == b % 64) by (bit_vector);
    let es = (bits / 16 + 1) as u64;
    let (h, count): (usize, u64) = if t[m] == 0 { (4, be_u16(t, m + 2) as u64) } else { (6, be_u32(t, m + 2) as u64) };
    assert(es * count <= 4 * 0xFFFF_FFFF) by (nonlinear_arith)
        requires es <= 4, count <= 0xFFFF_FFFF;
    let n = es * count;
    if (m as u64) + (h as u64) + n <= t.len() as u64 {
        (n as usize, (h as u64) + n)
    } else {
        (0, 0)
    }
}

/// Describes a readable delta-set index map at `m`.
pub fn parse_delta_set_index_map(t: &[u8], m: usize) -> (r: Json)
    requires
        index_map_error(t@, m as int) is None,
        small_len(t@.len() as int),
    ensures
        r.jv() == index_map_value(t@, m as int),
{
    let f = t[m];
    let b = t[m + 1];
    let bits = b & 0x3F;
    assert(b & 0x3F == b % 64) by (bit_vector);
    let (nb, _) = map_bytes_exec(t, m);
    let h: usize = if f == 0 { 4 } else { 6 };
    let mut summary = text("0x");
    let hx = hex_string(bits as u64, 1);
    summary.append(hx.as_str());
    summary.append(" (entry size: ");
    let es = dec_string((bits / 16 + 1) as u64, 1);
    summary.append(es.as_str());
    summary.append(" bytes, inner index bits: ");
    let bc = dec_string((bits % 16 + 1) as u64, 1);
    summary.append(bc.as_str());
    summary.append(")");
    let mut o = new_obj();
    push_entry(&mut o, "format", parsed_field("uint8", jnum(f as u64), m, 1));
    push_entry(&mut o, "entryFormat", parsed_field_sum("uint8", jnum(bits as u64), m + 1, 1, summary));
    if f == 0 {
        push_entry(&mut o, "mapCount", parsed_field("uint16", jnum(be_u16(t, m + 2) as u64), m + 2, 2));
    } else {
        push_entry(&mut o, "mapCount", parsed_field("uint32", jnum(be_u32(t, m + 2) as u64), m + 2, 4));
    }
    let ghost want = Seq::new(nb as nat, |i: int| sfield("uint8"@, JsonV::Num(t@[m + h + i] as int), m + h + i, 1));
    let mut data = new_arr();
    let mut i: usize = 0;
    while i < nb
        invariant
            i <= nb,
            m + h + nb <= t@.len(),
            small_len(t@.len() as int),
            want == Seq::new(nb as nat, |i: int| sfield("uint8"@, JsonV::Num(t@[m + h + i] as int), m + h + i, 1)),
            jv_seq(data@) == want.take(i as int),
        decreases nb - i,
    {
        push_item(&mut data, parsed_field("uint8", jnum(t[m + h + i] as u64), m + h + i, 1));
        assert(want.take(i + 1) =~= want.take(i as int).push(want[i as int]));
        i = i + 1;
    }
    assert(want.take(nb as int) =~= want);
    push_entry(&mut o, "mapData", parsed_field("uint8[]", jarr(data), m + h, nb));
    proof {
        reveal_strlit("0x");
    }
    assert(jv_entries(o@) =~= index_map_value(t@, m as int)->Obj_0);
    jobj(o)
}

/// The bytes a readable delta-set index map covers.
pub fn index_map_length(t: &[u8], m: usize) -> (r: u64)
    requires
        index_map_error(t@, m as int) is None,
        small_len(t@.len() as int),
    ensures
        r == index_map_len(t@, m as int),
{
    let (_, len) = map_bytes_exec(t, m);
    len
}

} // verus!
