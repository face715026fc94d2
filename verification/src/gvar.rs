use vstd::prelude::*;
use vstd::slice::slice_subrange;
use read_fonts::tables::gvar::{GlyphVariationDataHeader, Gvar};
use read_fonts::tables::variations::Tuple;
use read_fonts::types::GlyphId;
use read_fonts::FontRead;
use crate::json::{
    jarr, jnum, jobj, jv_entries, jv_seq, new_arr, new_obj, parsed_field, parsed_field_wide, push_entry,
    push_item, sfield, sfield_sum, Json, JsonV, field_span, follows, starts_at,
};
use crate::reader::{be_u16, be_u32, small_len, spec_read_u16_at, u16_at, u32_at};
use crate::tuple_variations::{
    format_tuple_index, format_tuple_variation_count, get_packed_deltas_len,
    get_packed_point_numbers_len, spec_format_tuple_index, spec_format_tuple_variation_count,
    spec_packed_deltas_len, spec_packed_point_numbers_len,
};

verus! {

// ---- The header of the glyph variations table ----

pub open spec fn gvar_axis_count(t: Seq<u8>) -> int {
    u16_at(t, 4)
}

pub open spec fn gvar_glyph_count(t: Seq<u8>) -> int {
    u16_at(t, 12)
}

/// The offsets to the glyphs' variation data are 32-bit (flag bit 0).
pub open spec fn gvar_long(t: Seq<u8>) -> bool {
    u16_at(t, 14) % 2 == 1
}

pub open spec fn gvar_offset_size(t: Seq<u8>) -> int {
    if gvar_long(t) { 4 } else { 2 }
}

/// The offsets array (one more than the glyphs) is read: all of it, where
/// it lies within the table, else none of it.
pub open spec fn gvar_offsets_present(t: Seq<u8>) -> bool {
    20 + (gvar_glyph_count(t) + 1) * gvar_offset_size(t) <= t.len()
}

/// Offset `k` of the glyphs' variation data (a 16-bit one counts words),
/// where the array is read and holds it.
pub open spec fn gvar_offset(t: Seq<u8>, k: int) -> Option<int> {
    if gvar_offsets_present(t) && 0 <= k <= gvar_glyph_count(t) {
        Some(if gvar_long(t) { u32_at(t, 20 + 4 * k) } else { 2 * u16_at(t, 20 + 2 * k) })
    } else {
        None
    }
}

pub open spec fn gvar_data_start(t: Seq<u8>) -> int {
    u32_at(t, 16)
}

pub open spec fn gvar_shared_start(t: Seq<u8>) -> int {
    u32_at(t, 8)
}

/// Where the variation data of glyph `i` stands in the table and how long
/// it is, with 32-bit arithmetic; a missing offset counts as 0, a missing
/// next one as the glyph's own.
pub open spec fn glyph_span(t: Seq<u8>, i: int) -> (int, int) {
    let go = match gvar_offset(t, i) {
        Some(o) => o,
        None => 0,
    };
    let no = match gvar_offset(t, i + 1) {
        Some(o) => o,
        None => go,
    };
    ((gvar_data_start(t) + go) % 0x1_0000_0000, (no - go) % 0x1_0000_0000)
}

// ---- What read-fonts decodes of a glyph's tuple variations ----

/// One tuple variation of a glyph as read-fonts reads it: the number of
/// deltas it holds, its peak tuple and its intermediate region, each
/// coordinate by its raw 2.14 value.
pub struct TupleFacts {
    pub deltas: u64,
    pub peak: Vec<i16>,
    pub start: Option<Vec<i16>>,
    pub end: Option<Vec<i16>>,
}

pub open spec fn opt_vals(v: Option<Vec<i16>>) -> Option<Seq<i16>> {
    match v {
        Some(x) => Some(x@),
        None => None,
    }
}

pub open spec fn fact_view(f: TupleFacts) -> (int, Seq<i16>, Option<Seq<i16>>, Option<Seq<i16>>) {
    (f.deltas as int, f.peak@, opt_vals(f.start), opt_vals(f.end))
}

pub open spec fn facts_view(r: Option<Vec<TupleFacts>>) -> Option<Seq<(int, Seq<i16>, Option<Seq<i16>>, Option<Seq<i16>>)>> {
    match r {
        Some(v) => Some(v@.map_values(|f: TupleFacts| fact_view(f))),
        None => None,
    }
}

/// The tuple variations that read-fonts yields for glyph `gid` of the
/// glyph variations table `table` (`GlyphVariationData::tuples`), or `None`
/// where it gives the glyph no variation data.
pub uninterp spec fn gvar_glyph_tuples(table: Seq<u8>, gid: u32) -> Option<
    Seq<(int, Seq<i16>, Option<Seq<i16>>, Option<Seq<i16>>)>,
>;

/// The coordinates of a tuple are at most as many as the axes.
pub open spec fn facts_fit(f: Seq<(int, Seq<i16>, Option<Seq<i16>>, Option<Seq<i16>>)>, ac: int) -> bool {
    forall|k: int|
        0 <= k < f.len() ==> {
            &&& (#[trigger] f[k]).1.len() <= ac
            &&& (f[k].2 matches Some(v) ==> v.len() <= ac)
            &&& (f[k].3 matches Some(v) ==> v.len() <= ac)
            &&& 0 <= f[k].0
        }
}

/// read-fonts' tuple variations of glyph `gid`: the table is read with
/// `Gvar::read`, the glyph's data with `Gvar::data_for_gid` and
/// `GlyphVariationDataHeader::read`, and `Gvar::glyph_variation_data`
/// gives the tuples; each is handed out as the count of its `deltas`, its
/// `peak` and its `intermediate_start` and `intermediate_end`, by raw
/// values. The contract names the result and states what read-fonts'
/// source shows of a glyph that has data: the table holds its 20-byte
/// header and both offsets of the glyph, the data is not empty, lies
/// within the table and holds its 4-byte header, no more tuples come than
/// the header counts, and a tuple has at most as many coordinates as the
/// axes. How many tuples are read and how many deltas each decodes is left
/// to the name.
#[verifier::external_body]
fn read_glyph_tuples(table: &[u8], gid: u32) -> (r: Option<Vec<TupleFacts>>)
    ensures
        facts_view(r) == gvar_glyph_tuples(table@, gid),
        r matches Some(f) ==> {
            &&& table@.len() >= 20
            &&& gvar_offset(table@, gid as int) is Some
            &&& gvar_offset(table@, gid + 1) is Some
            &&& gvar_data_start(table@) + gvar_offset(table@, gid as int)->Some_0 + 4
                <= gvar_data_start(table@) + gvar_offset(table@, gid + 1)->Some_0
            &&& gvar_data_start(table@) + gvar_offset(table@, gid + 1)->Some_0 <= table@.len()
            &&& gvar_data_start(table@) + gvar_offset(table@, gid + 1)->Some_0 < 0x1_0000_0000
            &&& f@.len() <= u16_at(table@, gvar_data_start(table@) + gvar_offset(table@, gid as int)->Some_0) % 0x1000
            &&& facts_fit(f@.map_values(|x: TupleFacts| fact_view(x)), gvar_axis_count(table@))
        },
{
    let gvar = Gvar::read(table.into()).ok()?;
    let g = GlyphId::new(gid);
    GlyphVariationDataHeader::read(gvar.data_for_gid(g).ok()??).ok()?;
    let data = gvar.glyph_variation_data(g).ok()??;
    let vals = |t: Tuple<'_>| t.values().iter().map(|v| v.get().to_bits()).collect::<Vec<i16>>();
    Some(data.tuples().map(|t| TupleFacts {
        deltas: t.deltas().count() as u64,
        peak: vals(t.peak()),
        start: t.intermediate_start().map(vals),
        end: t.intermediate_end().map(vals),
    }).collect())
}

} // verus!

verus! {

// ---- A glyph's variation data, described ----

/// A 16-bit value at `p`, or 0 where it does not lie within `s`.
pub open spec fn ro16(s: Seq<u8>, p: int) -> int {
    spec_read_u16_at(s, p)
}

/// The tuple index of the tuple variation header at `c`.
pub open spec fn tidx_at(raw: Seq<u8>, c: int) -> u16 {
    ro16(raw, c + 2) as u16
}

/// The bytes of a tuple variation header: its size and index, then an
/// embedded peak and an intermediate region where its index says so.
pub open spec fn header_len(ti: u16, ac: int) -> int {
    4 + (if ti & 0x8000 != 0 { 2 * ac } else { 0 }) + (if ti & 0x4000 != 0 { 4 * ac } else { 0 })
}

/// Where tuple variation header `k` starts within the glyph's data.
pub open spec fn cursor_at(raw: Seq<u8>, ac: int, k: nat) -> int
    decreases k,
{
    if k == 0 {
        4
    } else {
        let c = cursor_at(raw, ac, (k - 1) as nat);
        c + header_len(tidx_at(raw, c), ac)
    }
}

/// The serialized data sizes of the first `k` tuple variations.
pub open spec fn data_sum(raw: Seq<u8>, ac: int, k: nat) -> int
    decreases k,
{
    if k == 0 {
        0
    } else {
        data_sum(raw, ac, (k - 1) as nat) + ro16(raw, cursor_at(raw, ac, (k - 1) as nat))
    }
}

/// A tuple's coordinates shown from `off` on, the tuple taking `len` bytes.
pub open spec fn tuple_json(vals: Seq<i16>, off: int, len: int) -> JsonV {
    sfield(
        "Tuple"@,
        JsonV::Arr(Seq::new(vals.len(), |j: int| sfield("F2DOT14"@, JsonV::F2Dot14(vals[j] as int), off + 2 * j, 2))),
        off,
        len,
    )
}

/// The bytes `start .. start + n` of `s`, each shown from `base` on.
pub open spec fn byte_items(s: Seq<u8>, start: int, n: int, base: int) -> Seq<JsonV> {
    Seq::new(n as nat, |j: int| sfield("uint8"@, JsonV::Num(s[start + j] as int), base + j, 1))
}

/// The tuple variation header at `c` of data that starts at `abs` in the
/// table, with read-fonts' reading `f` of the tuple; a peak that is not
/// embedded is one of the shared tuples at `shared_start`, where there are
/// shared tuples.
#[verifier::opaque]
pub open spec fn header_item(
    raw: Seq<u8>,
    f: (int, Seq<i16>, Option<Seq<i16>>, Option<Seq<i16>>),
    ac: int,
    abs: int,
    shared_start: int,
    shared: bool,
    c: int,
) -> JsonV {
    let hs = abs + c;
    let ti = tidx_at(raw, c);
    let tbl = 2 * ac;
    let embedded = ti & 0x8000 != 0;
    let after_peak = hs + 4 + if embedded { tbl } else { 0 };
    let peak_off = if embedded || !shared { hs + 4 } else { shared_start + (ti & 0x0FFF) * tbl };
    let fields = seq![
        ("variationDataSize"@, sfield("uint16"@, JsonV::Num(ro16(raw, c)), hs, 2)),
        ("tupleIndex"@, sfield_sum("uint16"@, JsonV::Num(ti as int), hs + 2, 2, spec_format_tuple_index(ti))),
    ] + (if f.1.len() > 0 { seq![("peakTuple"@, tuple_json(f.1, peak_off, tbl))] } else { seq![] }) + (match f.2 {
        Some(v) => seq![("intermediateStartTuple"@, tuple_json(v, after_peak, tbl))],
        None => seq![],
    }) + (match f.3 {
        Some(v) => seq![("intermediateEndTuple"@, tuple_json(v, after_peak + tbl, tbl))],
        None => seq![],
    });
    sfield("TupleVariationHeader"@, JsonV::Obj(fields), hs, header_len(ti, ac))
}

/// The number of points a tuple's deltas are read for: read-fonts' count,
/// kept below a bound that no font reaches.
pub open spec fn points_for(d: int) -> int {
    if d > usize::MAX / 4 { (usize::MAX / 4) as int } else { d }
}

/// The packed data of one tuple variation, `sl`, shown from `tdo` on: its
/// private point numbers where its index asks for them, then its packed
/// deltas for `np` points: x and y deltas for a glyph, one list for the
/// control value table (`cvt`).
pub open spec fn tuple_data_fields(sl: Seq<u8>, ti: u16, np: int, tdo: int, cvt: bool) -> Seq<(Seq<char>, JsonV)> {
    let private = ti & 0x2000 != 0;
    let lc = if private { spec_packed_point_numbers_len(sl) as int } else { 0 };
    let xl = spec_packed_deltas_len(sl.subrange(lc, sl.len() as int), np as nat) as int;
    let yl = spec_packed_deltas_len(sl.subrange(lc + xl, sl.len() as int), np as nat) as int;
    let points = (
        "privatePointNumbers"@,
        if private {
            sfield("PackedPointNumbers"@, JsonV::Arr(byte_items(sl, 0, lc, tdo)), tdo, lc)
        } else {
            JsonV::Null
        },
    );
    if cvt {
        seq![points, ("cvtPackedDeltas"@, sfield("PackedDeltas"@, JsonV::Arr(byte_items(sl, lc, xl, tdo + lc)), tdo + lc, xl))]
    } else {
        seq![
            points,
            ("xPackedDeltas"@, sfield("PackedDeltas"@, JsonV::Arr(byte_items(sl, lc, xl, tdo + lc)), tdo + lc, xl)),
            ("yPackedDeltas"@, sfield("PackedDeltas"@, JsonV::Arr(byte_items(sl, lc + xl, yl, tdo + lc + xl)), tdo + lc + xl, yl)),
        ]
    }
}

/// Where the serialized data starts within the glyph's data, and how long
/// the shared point numbers there are.
pub open spec fn shared_points_len(raw: Seq<u8>) -> int {
    let sdo = u16_at(raw, 2);
    if u16_at(raw, 0) as u16 & 0x8000 != 0 && sdo < raw.len() {
        spec_packed_point_numbers_len(raw.subrange(sdo, raw.len() as int)) as int
    } else {
        0
    }
}

/// The serialized data of the tuple variation whose header is at `c`
/// (read-fonts counts `d` deltas for it): it follows `sum` bytes of the
/// tuple data before it, which starts `first` bytes into `raw`, and `raw`
/// stands at `abs` in the table.
#[verifier::opaque]
pub open spec fn tuple_data_item(raw: Seq<u8>, abs: int, d: int, c: int, sum: int, first: int, cvt: bool) -> JsonV {
    let vds = ro16(raw, c);
    let ti = tidx_at(raw, c);
    let rel = first + sum;
    let tdo = abs + rel;
    let value = if rel + vds <= raw.len() {
        JsonV::Obj(tuple_data_fields(raw.subrange(rel, rel + vds), ti, points_for(d), tdo, cvt))
    } else {
        JsonV::Obj(seq![])
    };
    sfield("TupleVariationData"@, value, tdo, vds)
}

/// The variation data of a glyph that read-fonts reads (`raw`, at `abs`
/// in the table), with read-fonts' reading `facts` of its tuples.
pub open spec fn glyph_var_obj(
    raw: Seq<u8>,
    facts: Seq<(int, Seq<i16>, Option<Seq<i16>>, Option<Seq<i16>>)>,
    ac: int,
    abs: int,
    shared_start: int,
) -> JsonV {
    let n = facts.len();
    let len = raw.len() as int;
    let tvc = u16_at(raw, 0) as u16;
    let sdo = u16_at(raw, 2);
    let sds = abs + sdo;
    let sdl = if sdo < len { len - sdo } else { 0 };
    let has_shared = tvc & 0x8000 != 0;
    let spl = shared_points_len(raw);
    let headers = Seq::new(n, |k: int| header_item(raw, facts[k], ac, abs, shared_start, true, cursor_at(raw, ac, k as nat)));
    let data = Seq::new(
        n,
        |k: int| tuple_data_item(raw, abs, facts[k].0, cursor_at(raw, ac, k as nat), data_sum(raw, ac, k as nat), sdo + spl, false),
    );
    let serialized = (if has_shared {
        seq![("sharedPointNumbers"@, sfield("PackedPointNumbers"@, JsonV::Arr(byte_items(raw, sdo, spl, sds)), sds, spl))]
    } else {
        seq![]
    }) + seq![
        (
            "perTupleData"@,
            sfield("TupleVariationData[]"@, JsonV::Arr(data), if has_shared { sds + spl } else { sds }, data_sum(raw, ac, n)),
        ),
    ];
    let end = cursor_at(raw, ac, n);
    sfield(
        "GlyphVariationData"@,
        JsonV::Obj(
            seq![
                (
                    "header"@,
                    sfield(
                        "GlyphVariationDataHeader"@,
                        JsonV::Obj(
                            seq![
                                ("tupleVariationCount"@, sfield_sum("uint16"@, JsonV::Num(tvc as int), abs, 2, spec_format_tuple_variation_count(tvc))),
                                ("dataOffset"@, sfield("Offset16"@, JsonV::Num(sdo), abs + 2, 2)),
                                ("tupleVariationHeaders"@, sfield("TupleVariationHeader[]"@, JsonV::Arr(headers), abs + 4, end - 4)),
                            ],
                        ),
                        abs,
                        end,
                    ),
                ),
                ("serializedData"@, sfield("SerializedData"@, JsonV::Obj(serialized), sds, sdl)),
            ],
        ),
        abs,
        len,
    )
}

/// The variation data of glyph `i`: empty where read-fonts gives the glyph
/// none, else described header by header and tuple by tuple.
#[verifier::opaque]
pub open spec fn gvar_glyph_value(t: Seq<u8>, i: int) -> JsonV {
    let (abs, len) = glyph_span(t, i);
    match gvar_glyph_tuples(t, i as u32) {
        None => sfield("GlyphVariationData"@, JsonV::Obj(seq![]), abs, len),
        Some(facts) => glyph_var_obj(t.subrange(abs, abs + len), facts, gvar_axis_count(t), abs, gvar_shared_start(t)),
    }
}

} // verus!

verus! {

proof fn lemma_cursor_bound(raw: Seq<u8>, ac: int, k: nat)
    requires
        0 <= ac <= 0xFFFF,
    ensures
        4 <= cursor_at(raw, ac, k) <= 4 + 393214 * k,
        0 <= data_sum(raw, ac, k) <= 0xFFFF * k,
    decreases k,
{
    if k > 0 {
        lemma_cursor_bound(raw, ac, (k - 1) as nat);
        let c = cursor_at(raw, ac, (k - 1) as nat);
        assert(4 <= header_len(tidx_at(raw, c), ac) <= 393214);
        assert(cursor_at(raw, ac, k) == c + header_len(tidx_at(raw, c), ac));
        assert(0 <= ro16(raw, c) <= 0xFFFF);
    }
}

pub(crate) fn ro16_exec(s: &[u8], p: u64) -> (r: u16)
    ensures
        r == ro16(s@, p as int),
{
    if p <= s.len() as u64 && s.len() as u64 - p >= 2 {
        be_u16(s, p as usize)
    } else {
        0
    }
}

fn tuple_json_exec(vals: &Vec<i16>, off: u64, len: u64) -> (r: Json)
    requires
        vals@.len() <= 0xFFFF,
        off <= 0x1_0000_0000_0000,
    ensures
        r.jv() == tuple_json(vals@, off as int, len as int),
{
    let ghost want = Seq::new(vals@.len(), |j: int| sfield("F2DOT14"@, JsonV::F2Dot14(vals@[j] as int), off + 2 * j, 2));
    let mut items = new_arr();
    let mut j: usize = 0;
    while j < vals.len()
        invariant
            j <= vals@.len(),
            vals@.len() <= 0xFFFF,
            off <= 0x1_0000_0000_0000,
            want == Seq::new(vals@.len(), |j: int| sfield("F2DOT14"@, JsonV::F2Dot14(vals@[j] as int), off + 2 * j, 2)),
            jv_seq(items@) == want.take(j as int),
        decreases vals@.len() - j,
    {
        push_item(&mut items, parsed_field_wide("F2DOT14", Json::F2Dot14(vals[j]), off + 2 * (j as u64), 2));
        assert(want.take(j + 1) =~= want.take(j as int).push(want[j as int]));
        j = j + 1;
    }
    assert(want.take(vals@.len() as int) =~= want);
    parsed_field_wide("Tuple", jarr(items), off, len)
}

pub(crate) fn byte_items_exec(s: &[u8], start: usize, n: usize, base: u64) -> (r: Vec<Json>)
    requires
        start + n <= s@.len(),
        small_len(s@.len() as int),
        base + n <= 0x1_0000_0000_0000,
    ensures
        jv_seq(r@) == byte_items(s@, start as int, n as int, base as int),
{
    let ghost want = byte_items(s@, start as int, n as int, base as int);
    let mut items = new_arr();
    let mut j: usize = 0;
    while j < n
        invariant
            j <= n,
            start + n <= s@.len(),
            small_len(s@.len() as int),
            base + n <= 0x1_0000_0000_0000,
            want == byte_items(s@, start as int, n as int, base as int),
            jv_seq(items@) == want.take(j as int),
        decreases n - j,
    {
        let b = s[start + j];
        let at: u64 = base + j as u64;
        push_item(&mut items, parsed_field_wide("uint8", jnum(b as u64), at, 1));
        assert(want.take(j + 1) =~= want.take(j as int).push(want[j as int]));
        j = j + 1;
    }
    assert(want.take(n as int) =~= want);
    items
}

} // verus!

verus! {

pub(crate) fn header_len_exec(ti: u16, ac: u16) -> (r: u64)
    ensures
        r == header_len(ti, ac as int),
        4 <= r <= 393214,
{
    let tbl = 2 * (ac as u64);
    let mut l: u64 = 4;
    if ti & 0x8000 != 0 {
        l = l + tbl;
    }
    if ti & 0x4000 != 0 {
        l = l + 2 * tbl;
    }
    l
}

pub open spec fn fact_fits(f: (int, Seq<i16>, Option<Seq<i16>>, Option<Seq<i16>>), ac: int) -> bool {
    &&& f.1.len() <= ac
    &&& (f.2 matches Some(v) ==> v.len() <= ac)
    &&& (f.3 matches Some(v) ==> v.len() <= ac)
    &&& 0 <= f.0
}

pub(crate) fn header_item_exec(raw: &[u8], f: &TupleFacts, ac: u16, abs: u64, shared_start: u64, shared: bool, c: u64) -> (r: Json)
    requires
        fact_fits(fact_view(*f), ac as int),
        abs < 0x1_0000_0000,
        shared_start < 0x1_0000_0000,
        c <= 0x1_0000_0000,
    ensures
        r.jv() == header_item(raw@, fact_view(*f), ac as int, abs as int, shared_start as int, shared, c as int),
{
    let hs = abs + c;
    let vds = ro16_exec(raw, c);
    let ti = ro16_exec(raw, c + 2);
    assert(ti == tidx_at(raw@, c as int));
    let tbl = 2 * (ac as u64);
    let embedded = ti & 0x8000 != 0;
    let after_peak = if embedded { hs + 4 + tbl } else { hs + 4 };
    assert(ti & 0x0FFF <= 0x0FFF) by (bit_vector);
    let idx: u64 = (ti & 0x0FFF) as u64;
    assert(idx * tbl <= 0xFFF * 131070) by (nonlinear_arith)
        requires
            idx <= 0xFFF,
            tbl <= 131070,
    ;
    let peak_off = if embedded || !shared { hs + 4 } else { shared_start + idx * tbl };
    let mut o = new_obj();
    push_entry(&mut o, "variationDataSize", parsed_field_wide("uint16", jnum(vds as u64), hs, 2));
    let tfield = parsed_field_wide("uint16", jnum(ti as u64), hs + 2, 2);
    let ts = format_tuple_index(ti);
    let ghost tsv = ts@;
    assert(sfield("uint16"@, JsonV::Num(ti as int), hs + 2, 2)->Obj_0.push(("summary"@, JsonV::Str(tsv)))
        =~= sfield_sum("uint16"@, JsonV::Num(ti as int), hs + 2, 2, tsv)->Obj_0);
    push_entry(&mut o, "tupleIndex", crate::json::with_summary(tfield, ts));
    if f.peak.len() > 0 {
        push_entry(&mut o, "peakTuple", tuple_json_exec(&f.peak, peak_off, tbl));
    }
    match &f.start {
        Some(v) => push_entry(&mut o, "intermediateStartTuple", tuple_json_exec(v, after_peak, tbl)),
        None => {},
    }
    match &f.end {
        Some(v) => push_entry(&mut o, "intermediateEndTuple", tuple_json_exec(v, after_peak + tbl, tbl)),
        None => {},
    }
    let hl = header_len_exec(ti, ac);
    reveal(header_item);
    assert(jv_entries(o@) =~= header_item(raw@, fact_view(*f), ac as int, abs as int, shared_start as int, shared, c as int)->Obj_0[1].1->Obj_0);
    parsed_field_wide("TupleVariationHeader", jobj(o), hs, hl)
}

fn tuple_data_fields_exec(sl: &[u8], ti: u16, np: usize, tdo: u64, cvt: bool) -> (r: Vec<(String, Json)>)
    requires
        sl@.len() <= 0xFFFF,
        np <= usize::MAX / 4,
        tdo <= 0x10_0000_0000,
    ensures
        jv_entries(r@) == tuple_data_fields(sl@, ti, np as int, tdo as int, cvt),
{
    let private = ti & 0x2000 != 0;
    let lc: usize = if private { get_packed_point_numbers_len(sl) } else { 0 };
    let xs = slice_subrange(sl, lc, sl.len());
    let xl = get_packed_deltas_len(xs, np);
    let ys = slice_subrange(sl, lc + xl, sl.len());
    let yl = get_packed_deltas_len(ys, np);
    let mut o = new_obj();
    if private {
        let items = byte_items_exec(sl, 0, lc, tdo);
        push_entry(&mut o, "privatePointNumbers", parsed_field_wide("PackedPointNumbers", jarr(items), tdo, lc as u64));
    } else {
        push_entry(&mut o, "privatePointNumbers", Json::Null);
    }
    let x_items = byte_items_exec(sl, lc, xl, tdo + lc as u64);
    if cvt {
        push_entry(&mut o, "cvtPackedDeltas", parsed_field_wide("PackedDeltas", jarr(x_items), tdo + lc as u64, xl as u64));
    } else {
        push_entry(&mut o, "xPackedDeltas", parsed_field_wide("PackedDeltas", jarr(x_items), tdo + lc as u64, xl as u64));
        let y_items = byte_items_exec(sl, lc + xl, yl, tdo + (lc + xl) as u64);
        push_entry(&mut o, "yPackedDeltas", parsed_field_wide("PackedDeltas", jarr(y_items), tdo + (lc + xl) as u64, yl as u64));
    }
    assert(jv_entries(o@) =~= tuple_data_fields(sl@, ti, np as int, tdo as int, cvt));
    o
}

pub(crate) fn tuple_data_item_exec(raw: &[u8], abs: u64, d: u64, c: u64, sum: u64, first: u64, cvt: bool) -> (r: Json)
    requires
        raw@.len() < 0x1_0000_0000,
        first <= 0x2_0000_0000,
        abs < 0x1_0000_0000,
        c <= 0x1_0000_0000,
        sum <= 0x1000_0000,
    ensures
        r.jv() == tuple_data_item(raw@, abs as int, d as int, c as int, sum as int, first as int, cvt),
{
    reveal(tuple_data_item);
    let vds = ro16_exec(raw, c);
    let ti = ro16_exec(raw, c + 2);
    assert(ti == tidx_at(raw@, c as int));
    let rel: u64 = first + sum;
    let tdo = abs + rel;
    let value = if rel + (vds as u64) <= raw.len() as u64 {
        let sl = slice_subrange(raw, rel as usize, (rel + vds as u64) as usize);
        let np: usize = if d > (usize::MAX / 4) as u64 { usize::MAX / 4 } else { d as usize };
        jobj(tuple_data_fields_exec(sl, ti, np, tdo, cvt))
    } else {
        let o = new_obj();
        jobj(o)
    };
    parsed_field_wide("TupleVariationData", value, tdo, vds as u64)
}

pub open spec fn facts_seq(f: Seq<TupleFacts>) -> Seq<(int, Seq<i16>, Option<Seq<i16>>, Option<Seq<i16>>)> {
    f.map_values(|x: TupleFacts| fact_view(x))
}

fn shared_points_len_exec(raw: &[u8]) -> (r: usize)
    requires
        raw@.len() >= 4,
        small_len(raw@.len() as int),
    ensures
        r == shared_points_len(raw@),
        r <= raw@.len(),
{
    let tvc = be_u16(raw, 0);
    let sdo = be_u16(raw, 2) as usize;
    if tvc & 0x8000 != 0 && sdo < raw.len() {
        let rest = slice_subrange(raw, sdo, raw.len());
        get_packed_point_numbers_len(rest)
    } else {
        0
    }
}

/// Describes the variation data `raw` of a glyph, which stands at `abs` in
/// the table, with read-fonts' reading of its tuples.
fn glyph_var_exec(raw: &[u8], facts: &Vec<TupleFacts>, ac: u16, abs: u64, ss: u64) -> (r: Json)
    requires
        4 <= raw@.len() < 0x1_0000_0000,
        small_len(raw@.len() as int),
        facts@.len() <= 0xFFF,
        facts_fit(facts_seq(facts@), ac as int),
        abs < 0x1_0000_0000,
        ss < 0x1_0000_0000,
    ensures
        r.jv() == glyph_var_obj(raw@, facts_seq(facts@), ac as int, abs as int, ss as int),
{
    let ghost fv = facts_seq(facts@);
    let ghost n = facts@.len();
    let ghost want_h = Seq::new(n, |k: int| header_item(raw@, fv[k], ac as int, abs as int, ss as int, true, cursor_at(raw@, ac as int, k as nat)));
    let mut headers = new_arr();
    let mut c: u64 = 4;
    let mut k: usize = 0;
    while k < facts.len()
        invariant
            k <= facts@.len() <= 0xFFF,
            4 <= raw@.len() < 0x1_0000_0000,
            fv == facts_seq(facts@),
            facts_fit(fv, ac as int),
            abs < 0x1_0000_0000,
            ss < 0x1_0000_0000,
            c == cursor_at(raw@, ac as int, k as nat),
            n == facts@.len(),
            want_h == Seq::new(n, |k: int| header_item(raw@, fv[k], ac as int, abs as int, ss as int, true, cursor_at(raw@, ac as int, k as nat))),
            jv_seq(headers@) == want_h.take(k as int),
        decreases facts@.len() - k,
    {
        proof {
            lemma_cursor_bound(raw@, ac as int, k as nat);
            assert(fv[k as int] == fact_view(facts@[k as int]));
            assert(fact_fits(fv[k as int], ac as int));
        }
        let item = header_item_exec(raw, &facts[k], ac, abs, ss, true, c);
        push_item(&mut headers, item);
        assert(want_h.take(k + 1) =~= want_h.take(k as int).push(want_h[k as int]));
        let ti = ro16_exec(raw, c + 2);
        c = c + header_len_exec(ti, ac);
        k = k + 1;
    }
    assert(want_h.take(n as int) =~= want_h);
    let spl = shared_points_len_exec(raw);
    let first: u64 = be_u16(raw, 2) as u64 + spl as u64;
    let ghost want_d = Seq::new(
        n,
        |k: int| tuple_data_item(raw@, abs as int, fv[k].0, cursor_at(raw@, ac as int, k as nat), data_sum(raw@, ac as int, k as nat), first as int, false),
    );
    let mut data = new_arr();
    let mut c2: u64 = 4;
    let mut sum: u64 = 0;
    let mut k2: usize = 0;
    while k2 < facts.len()
        invariant
            k2 <= facts@.len() <= 0xFFF,
            4 <= raw@.len() < 0x1_0000_0000,
            small_len(raw@.len() as int),
            fv == facts_seq(facts@),
            abs < 0x1_0000_0000,
            spl == shared_points_len(raw@),
            first == u16_at(raw@, 2) + spl,
            spl <= raw@.len(),
            c2 == cursor_at(raw@, ac as int, k2 as nat),
            sum == data_sum(raw@, ac as int, k2 as nat),
            n == facts@.len(),
            want_d == Seq::new(
                n,
                |k: int| tuple_data_item(raw@, abs as int, fv[k].0, cursor_at(raw@, ac as int, k as nat), data_sum(raw@, ac as int, k as nat), first as int, false),
            ),
            jv_seq(data@) == want_d.take(k2 as int),
        decreases facts@.len() - k2,
    {
        proof {
            lemma_cursor_bound(raw@, ac as int, k2 as nat);
            lemma_cursor_bound(raw@, ac as int, (k2 + 1) as nat);
            assert(fv[k2 as int] == fact_view(facts@[k2 as int]));
        }
        let item = tuple_data_item_exec(raw, abs, facts[k2].deltas, c2, sum, first, false);
        push_item(&mut data, item);
        assert(want_d.take(k2 + 1) =~= want_d.take(k2 as int).push(want_d[k2 as int]));
        let vds = ro16_exec(raw, c2);
        let ti = ro16_exec(raw, c2 + 2);
        sum = sum + vds as u64;
        c2 = c2 + header_len_exec(ti, ac);
        k2 = k2 + 1;
    }
    assert(want_d.take(n as int) =~= want_d);
    proof {
        lemma_cursor_bound(raw@, ac as int, n);
    }
    let len = raw.len() as u64;
    let tvc = be_u16(raw, 0);
    let sdo = be_u16(raw, 2) as u64;
    let sds = abs + sdo;
    let sdl: u64 = if sdo < len { len - sdo } else { 0 };
    let has_shared = tvc & 0x8000 != 0;
    let mut ser = new_obj();
    if has_shared {
        let items = if spl > 0 { byte_items_exec(raw, sdo as usize, spl, sds) } else { new_arr() };
        assert(jv_seq(items@) =~= byte_items(raw@, sdo as int, spl as int, sds as int));
        push_entry(&mut ser, "sharedPointNumbers", parsed_field_wide("PackedPointNumbers", jarr(items), sds, spl as u64));
    }
    let pt_off = if has_shared { sds + spl as u64 } else { sds };
    push_entry(&mut ser, "perTupleData", parsed_field_wide("TupleVariationData[]", jarr(data), pt_off, sum));
    let mut h = new_obj();
    let ts = format_tuple_variation_count(tvc);
    let ghost tsv = ts@;
    assert(sfield("uint16"@, JsonV::Num(tvc as int), abs as int, 2)->Obj_0.push(("summary"@, JsonV::Str(tsv)))
        =~= sfield_sum("uint16"@, JsonV::Num(tvc as int), abs as int, 2, tsv)->Obj_0);
    push_entry(&mut h, "tupleVariationCount", crate::json::with_summary(parsed_field_wide("uint16", jnum(tvc as u64), abs, 2), ts));
    push_entry(&mut h, "dataOffset", parsed_field_wide("Offset16", jnum(sdo), abs + 2, 2));
    push_entry(&mut h, "tupleVariationHeaders", parsed_field_wide("TupleVariationHeader[]", jarr(headers), abs + 4, c - 4));
    let mut v = new_obj();
    push_entry(&mut v, "header", parsed_field_wide("GlyphVariationDataHeader", jobj(h), abs, c));
    push_entry(&mut v, "serializedData", parsed_field_wide("SerializedData", jobj(ser), sds, sdl));
    proof {
        let want = glyph_var_obj(raw@, fv, ac as int, abs as int, ss as int);
        assert(jv_entries(h@) =~= want->Obj_0[1].1->Obj_0[0].1->Obj_0[1].1->Obj_0);
        assert(jv_entries(ser@) =~= want->Obj_0[1].1->Obj_0[1].1->Obj_0[1].1->Obj_0);
        assert(jv_entries(v@) =~= want->Obj_0[1].1->Obj_0);
    }
    parsed_field_wide("GlyphVariationData", jobj(v), abs, len)
}

fn gvar_offset_exec(t: &[u8], k: u64) -> (r: Option<u64>)
    requires
        t@.len() >= 20,
        small_len(t@.len() as int),
    ensures
        match r {
            Some(v) => gvar_offset(t@, k as int) == Some(v as int),
            None => gvar_offset(t@, k as int) is None,
        },
{
    let gc = be_u16(t, 12) as u64;
    let long = be_u16(t, 14) % 2 == 1;
    let size: u64 = if long { 4 } else { 2 };
    if 20 + (gc + 1) * size <= t.len() as u64 && k <= gc {
        if long {
            Some(be_u32(t, (20 + 4 * k) as usize) as u64)
        } else {
            Some(2 * (be_u16(t, (20 + 2 * k) as usize) as u64))
        }
    } else {
        None
    }
}

/// Describes the variation data of glyph `i` of the glyph variations
/// table `t`.
pub fn parse_single_glyph(t: &[u8], i: usize) -> (r: Json)
    requires
        t@.len() >= 20,
        small_len(t@.len() as int),
        i <= 0xFFFF_FFFF,
    ensures
        r.jv() == gvar_glyph_value(t@, i as int),
{
    let go = match gvar_offset_exec(t, i as u64) {
        Some(o) => o,
        None => 0,
    };
    let no = match gvar_offset_exec(t, i as u64 + 1) {
        Some(o) => o,
        None => go,
    };
    let ds = be_u32(t, 16) as u64;
    let abs = (ds + go) % 0x1_0000_0000;
    let len: u64 = if no >= go { no - go } else { no + 0x1_0000_0000 - go };
    assert(len as int == (no - go) % 0x1_0000_0000);
    reveal(gvar_glyph_value);
    match read_glyph_tuples(t, i as u32) {
        None => {
            let o = new_obj();
            assert(jv_entries(o@) =~= Seq::<(Seq<char>, JsonV)>::empty());
            parsed_field_wide("GlyphVariationData", jobj(o), abs, len)
        },
        Some(facts) => {
            let raw = slice_subrange(t, abs as usize, (abs + len) as usize);
            let ac = be_u16(t, 4);
            let ss = be_u32(t, 8) as u64;
            glyph_var_exec(raw, &facts, ac, abs, ss)
        },
    }
}

} // verus!

verus! {

// ---- The glyph variations table ----

pub open spec fn gvar_tag() -> Seq<u8> {
    seq![103u8, 118u8, 97u8, 114u8]
}

/// The shared tuples that are listed: all of them where the shared-tuple
/// offset resolves, there are axes and the tuples lie within the table;
/// else none.
pub open spec fn shared_tuples_listed(t: Seq<u8>) -> int {
    let count = u16_at(t, 6);
    let ac = gvar_axis_count(t);
    let off = gvar_shared_start(t);
    let resolves = (count == 0 && off == 0) || (off != 0 && off <= t.len());
    if resolves && ac > 0 && off + count * (2 * ac) <= t.len() { count } else { 0 }
}

/// Shared tuple `i`, shown where it stands.
pub open spec fn shared_tuple_item(t: Seq<u8>, i: int) -> JsonV {
    let ac = gvar_axis_count(t);
    let at = gvar_shared_start(t) + i * (2 * ac);
    sfield(
        "Tuple"@,
        JsonV::Arr(Seq::new(ac as nat, |j: int| sfield("F2DOT14"@, JsonV::F2Dot14(crate::reader::i16_at(t, at + 2 * j)), at + 2 * j, 2))),
        at,
        2 * ac,
    )
}

/// Glyph `i`'s variation data, with its index.
pub open spec fn gvar_batch_item(t: Seq<u8>, i: int) -> JsonV {
    JsonV::Obj(seq![("rowIndex"@, JsonV::Num(i)), ("data"@, gvar_glyph_value(t, i))])
}

pub open spec fn gvar_batch_items(t: Seq<u8>, offset: int, count: int) -> Seq<JsonV> {
    Seq::new(count as nat, |k: int| gvar_batch_item(t, offset + k))
}

/// A batch of glyphs' variation data from `offset` on: at most `limit` and
/// at most a thousand of the glyphs the table counts, and where the next
/// batch starts.
pub open spec fn gvar_batch_value(t: Seq<u8>, offset: int, limit: int) -> JsonV {
    let count = crate::glyf::batch_count(gvar_glyph_count(t), offset, limit);
    JsonV::Obj(seq![("items"@, JsonV::Arr(gvar_batch_items(t, offset, count))), ("next_offset"@, JsonV::Num(offset + count))])
}

/// The glyph variations table `t`, described: its header, its offsets (all
/// of them where they lie within the table), its shared tuples, and the
/// first hundred glyphs' variation data with the command that loads the
/// others.
pub open spec fn gvar_table_value(t: Seq<u8>) -> JsonV {
    let gc = gvar_glyph_count(t);
    let size = gvar_offset_size(t);
    let ty = if gvar_long(t) { "Offset32"@ } else { "Offset16"@ };
    let offsets: Seq<JsonV> = if gvar_offsets_present(t) {
        Seq::new((gc + 1) as nat, |k: int| sfield(ty, JsonV::Num(gvar_offset(t, k)->Some_0), 20 + k * size, size))
    } else {
        seq![]
    };
    let data_len = match gvar_offset(t, gc) {
        Some(o) => o,
        None => 0,
    };
    let flags = (u16_at(t, 14) as u16) & 1;
    let ac = gvar_axis_count(t);
    let n_shared = shared_tuples_listed(t);
    let loaded = gvar_batch_items(t, 0, crate::glyf::batch_count(gc, 0, 100));
    JsonV::Obj(
        seq![
            ("majorVersion"@, sfield("uint16"@, JsonV::Num(u16_at(t, 0)), 0, 2)),
            ("minorVersion"@, sfield("uint16"@, JsonV::Num(u16_at(t, 2)), 2, 2)),
            ("axisCount"@, sfield("uint16"@, JsonV::Num(ac), 4, 2)),
            ("sharedTupleCount"@, sfield("uint16"@, JsonV::Num(u16_at(t, 6)), 6, 2)),
            ("sharedTuplesOffset"@, sfield("Offset32"@, JsonV::Num(gvar_shared_start(t)), 8, 4)),
            ("glyphCount"@, sfield("uint16"@, JsonV::Num(gc), 12, 2)),
            ("flags"@, sfield_sum("uint16"@, JsonV::Num(flags as int), 14, 2, crate::tuple_variations::spec_format_gvar_flags(flags))),
            ("glyphVariationDataArrayOffset"@, sfield("Offset32"@, JsonV::Num(gvar_data_start(t)), 16, 4)),
            ("glyphVariationDataOffsets"@, sfield(ty + "[]"@, JsonV::Arr(offsets), 20, (gc + 1) * size)),
            (
                "sharedTuples"@,
                sfield(
                    "Tuple[]"@,
                    JsonV::Arr(Seq::new(n_shared as nat, |i: int| shared_tuple_item(t, i))),
                    gvar_shared_start(t),
                    n_shared * ac * 2,
                ),
            ),
            (
                "glyphVariationData"@,
                sfield_sum(
                    "GlyphVariationData[]"@,
                    JsonV::Obj(
                        seq![
                            ("_is_lazy_array"@, JsonV::Bool(true)),
                            ("lazy_command"@, JsonV::Str("parse_gvar_batch"@)),
                            ("total"@, JsonV::Num(gc)),
                            ("loaded"@, JsonV::Arr(loaded)),
                        ],
                    ),
                    gvar_data_start(t),
                    data_len,
                    "["@ + crate::text::dec(gc as nat, 1) + " records]"@,
                ),
            ),
        ],
    )
}

/// The glyph variations table of a font, or why it cannot be read: it is
/// missing, or shorter than its header.
pub open spec fn spec_load_gvar(font: Seq<u8>) -> Result<Seq<u8>, Seq<char>> {
    match crate::font::spec_load(font, gvar_tag()) {
        Err(e) => Err(e),
        Ok(t) => if t.len() < 20 { Err(crate::font::out_of_bounds()) } else { Ok(t) },
    }
}

pub open spec fn spec_parse(font: Seq<u8>) -> Result<JsonV, Seq<char>> {
    match spec_load_gvar(font) {
        Err(e) => Err(e),
        Ok(t) => Ok(gvar_table_value(t)),
    }
}

pub open spec fn spec_parse_batch(font: Seq<u8>, offset: int, limit: int) -> Result<JsonV, Seq<char>> {
    match spec_load_gvar(font) {
        Err(e) => Err(e),
        Ok(t) => Ok(gvar_batch_value(t, offset, limit)),
    }
}

/// The batch that a search by glyph index gives.
pub open spec fn gvar_index_batch_value(t: Seq<u8>, offset: int, idx: Option<int>) -> JsonV {
    let n = gvar_glyph_count(t);
    let items = match idx {
        Some(i) => if offset <= i && i < n { seq![gvar_batch_item(t, i)] } else { seq![] },
        None => seq![],
    };
    JsonV::Obj(seq![("items"@, JsonV::Arr(items)), ("next_offset"@, JsonV::Num(n))])
}

pub open spec fn spec_parse_index_batch(font: Seq<u8>, offset: int, idx: Option<int>) -> Result<JsonV, Seq<char>> {
    match spec_load_gvar(font) {
        Err(e) => Err(e),
        Ok(t) => Ok(gvar_index_batch_value(t, offset, idx)),
    }
}

} // verus!

verus! {

/// The bytes of the gvar table, at least its 20-byte header.
pub fn load_gvar(font: &[u8]) -> (r: Result<Vec<u8>, String>)
    requires
        small_len(font@.len() as int),
    ensures
        crate::font::loaded_view(r) == spec_load_gvar(font@),
        r matches Ok(t) ==> t@.len() <= font@.len() && t@.len() >= 20,
{
    let tag: Vec<u8> = vec![103u8, 118u8, 97u8, 114u8];
    assert(tag@ =~= gvar_tag());
    match crate::font::load_table(font, tag.as_slice()) {
        Err(e) => Err(e),
        Ok(t) => if t.len() < 20 {
            Err(crate::json::text("An offset was out of bounds"))
        } else {
            Ok(t)
        },
    }
}

fn gvar_batch_entry(t: &[u8], i: usize) -> (r: Json)
    requires
        t@.len() >= 20,
        small_len(t@.len() as int),
        i <= 0xFFFF_FFFF,
    ensures
        r.jv() == gvar_batch_item(t@, i as int),
{
    let mut o = new_obj();
    push_entry(&mut o, "rowIndex", jnum(i as u64));
    push_entry(&mut o, "data", parse_single_glyph(t, i));
    assert(jv_entries(o@) =~= gvar_batch_item(t@, i as int)->Obj_0);
    jobj(o)
}

fn gvar_batch_glyphs(t: &[u8], offset: usize, limit: usize) -> (r: (Vec<Json>, usize))
    requires
        t@.len() >= 20,
        small_len(t@.len() as int),
    ensures
        r.1 == crate::glyf::batch_count(gvar_glyph_count(t@), offset as int, limit as int),
        jv_seq(r.0@) == gvar_batch_items(t@, offset as int, r.1 as int),
{
    let n = be_u16(t, 12) as usize;
    let count: usize = if offset >= n {
        0
    } else {
        let left = n - offset;
        let a = if left < limit { left } else { limit };
        if a < 1000 { a } else { 1000 }
    };
    let ghost want = gvar_batch_items(t@, offset as int, count as int);
    let mut items = new_arr();
    let mut k: usize = 0;
    while k < count
        invariant
            k <= count,
            count <= 1000,
            count > 0 ==> offset + count <= n,
            n <= 0xFFFF,
            t@.len() >= 20,
            small_len(t@.len() as int),
            want == gvar_batch_items(t@, offset as int, count as int),
            jv_seq(items@) == want.take(k as int),
        decreases count - k,
    {
        push_item(&mut items, gvar_batch_entry(t, offset + k));
        assert(want.take(k + 1) =~= want.take(k as int).push(want[k as int]));
        k = k + 1;
    }
    assert(want.take(count as int) =~= want);
    (items, count)
}

/// The number of glyphs that a gvar table describes.
pub fn glyph_count(t: &[u8]) -> (r: u16)
    requires
        t@.len() >= 20,
    ensures
        r as int == gvar_glyph_count(t@),
{
    be_u16(t, 12)
}

/// Describes up to `limit` glyphs' variation data (and at most a thousand)
/// from `offset` on, and where the next batch starts.
pub fn parse_batch(font: &[u8], offset: usize, limit: usize) -> (r: Result<Json, String>)
    requires
        small_len(font@.len() as int),
    ensures
        crate::json::parsed_view(r) == spec_parse_batch(font@, offset as int, limit as int),
{
    let t = match load_gvar(font) {
        Err(e) => return Err(e),
        Ok(t) => t,
    };
    let (items, count) = gvar_batch_glyphs(t.as_slice(), offset, limit);
    let mut o = new_obj();
    push_entry(&mut o, "items", jarr(items));
    push_entry(&mut o, "next_offset", jnum((offset + count) as u64));
    assert(jv_entries(o@) =~= gvar_batch_value(t@, offset as int, limit as int)->Obj_0);
    Ok(jobj(o))
}

/// Describes the glyph that a search by index asks for (`None` where the
/// query is not an index).
pub fn parse_index_batch(font: &[u8], offset: usize, idx: Option<usize>) -> (r: Result<Json, String>)
    requires
        small_len(font@.len() as int),
    ensures
        crate::json::parsed_view(r) == spec_parse_index_batch(font@, offset as int, match idx { Some(i) => Some(i as int), None => None }),
{
    let t = match load_gvar(font) {
        Err(e) => return Err(e),
        Ok(t) => t,
    };
    let n = be_u16(t.as_slice(), 12);
    let mut items = new_arr();
    match idx {
        Some(i) => {
            if offset <= i && i < n as usize {
                push_item(&mut items, gvar_batch_entry(t.as_slice(), i));
            }
        },
        None => {},
    }
    let mut o = new_obj();
    push_entry(&mut o, "items", jarr(items));
    push_entry(&mut o, "next_offset", jnum(n as u64));
    proof {
        let iv = match idx { Some(i) => Some(i as int), None => None };
        assert(jv_entries(o@) =~= gvar_index_batch_value(t@, offset as int, iv)->Obj_0);
    }
    Ok(jobj(o))
}

fn offsets_list(t: &[u8]) -> (r: Vec<Json>)
    requires
        t@.len() >= 20,
        small_len(t@.len() as int),
    ensures
        jv_seq(r@) == gvar_table_value(t@)->Obj_0[8].1->Obj_0[1].1->Arr_0,
{
    let gc = be_u16(t, 12) as usize;
    let long = be_u16(t, 14) % 2 == 1;
    let size: usize = if long { 4 } else { 2 };
    let ty = if long { "Offset32" } else { "Offset16" };
    let ghost tyv = if gvar_long(t@) { "Offset32"@ } else { "Offset16"@ };
    assert(ty@ == tyv);
    let mut items = new_arr();
    if 20 + (gc + 1) * size <= t.len() {
        let ghost want = Seq::new((gc + 1) as nat, |k: int| sfield(tyv, JsonV::Num(gvar_offset(t@, k)->Some_0), 20 + k * size, size as int));
        let mut k: usize = 0;
        while k <= gc
            invariant
                k <= gc + 1,
                gc == gvar_glyph_count(t@),
                size == gvar_offset_size(t@),
                long == gvar_long(t@),
                ty@ == tyv,
                20 + (gc + 1) * size <= t@.len(),
                t@.len() >= 20,
                small_len(t@.len() as int),
                want == Seq::new((gc + 1) as nat, |k: int| sfield(tyv, JsonV::Num(gvar_offset(t@, k)->Some_0), 20 + k * size, size as int)),
                jv_seq(items@) == want.take(k as int),
            decreases gc + 1 - k,
        {
            let v: u64 = match gvar_offset_exec(t, k as u64) {
                Some(v) => v,
                None => 0,
            };
            push_item(&mut items, parsed_field(ty, jnum(v), 20 + k * size, size));
            assert(want.take(k + 1) =~= want.take(k as int).push(want[k as int]));
            k = k + 1;
        }
        assert(want.take((gc + 1) as int) =~= want);
    }
    items
}

fn shared_tuples_list(t: &[u8]) -> (r: (Vec<Json>, u64))
    requires
        t@.len() >= 20,
        small_len(t@.len() as int),
    ensures
        r.1 == shared_tuples_listed(t@),
        jv_seq(r.0@) == Seq::new(r.1 as nat, |i: int| shared_tuple_item(t@, i)),
{
    let count = be_u16(t, 6) as u64;
    let ac = be_u16(t, 4) as u64;
    let off = be_u32(t, 8) as u64;
    let len = t.len() as u64;
    let resolves = (count == 0 && off == 0) || (off != 0 && off <= len);
    assert(count * (2 * ac) <= 0xFFFF * 131070) by (nonlinear_arith)
        requires
            count <= 0xFFFF,
            ac <= 0xFFFF,
    ;
    let n: u64 = if resolves && ac > 0 && off + count * (2 * ac) <= len { count } else { 0 };
    let ghost want = Seq::new(n as nat, |i: int| shared_tuple_item(t@, i));
    let mut items = new_arr();
    let mut i: u64 = 0;
    while i < n
        invariant
            i <= n,
            n > 0 ==> off + n * (2 * ac) <= len,
            n <= 0xFFFF,
            ac == gvar_axis_count(t@),
            off == gvar_shared_start(t@),
            len == t@.len(),
            small_len(t@.len() as int),
            want == Seq::new(n as nat, |i: int| shared_tuple_item(t@, i)),
            jv_seq(items@) == want.take(i as int),
        decreases n - i,
    {
        assert(off + i * (2 * ac) + 2 * ac <= off + n * (2 * ac)) by (nonlinear_arith)
            requires
                i < n,
                ac >= 0,
        ;
        let at = off + i * (2 * ac);
        let ghost vals = Seq::new(ac as nat, |j: int| sfield("F2DOT14"@, JsonV::F2Dot14(crate::reader::i16_at(t@, at + 2 * j)), at + 2 * j, 2));
        let mut vs = new_arr();
        let mut j: u64 = 0;
        while j < ac
            invariant
                j <= ac,
                at + 2 * ac <= len,
                len == t@.len(),
                small_len(t@.len() as int),
                vals == Seq::new(ac as nat, |j: int| sfield("F2DOT14"@, JsonV::F2Dot14(crate::reader::i16_at(t@, at + 2 * j)), at + 2 * j, 2)),
                jv_seq(vs@) == vals.take(j as int),
            decreases ac - j,
        {
            let p = (at + 2 * j) as usize;
            push_item(&mut vs, parsed_field_wide("F2DOT14", Json::F2Dot14(crate::reader::be_i16(t, p)), at + 2 * j, 2));
            assert(vals.take(j + 1) =~= vals.take(j as int).push(vals[j as int]));
            j = j + 1;
        }
        assert(vals.take(ac as int) =~= vals);
        push_item(&mut items, parsed_field_wide("Tuple", jarr(vs), at, 2 * ac));
        assert(want.take(i + 1) =~= want.take(i as int).push(want[i as int]));
        i = i + 1;
    }
    assert(want.take(n as int) =~= want);
    (items, n)
}

/// Describes the glyph variations table of a font.
pub fn parse(font: &[u8]) -> (r: Result<Json, String>)
    requires
        small_len(font@.len() as int),
    ensures
        crate::json::parsed_view(r) == spec_parse(font@),
{
    let tv = match load_gvar(font) {
        Err(e) => return Err(e),
        Ok(t) => t,
    };
    let t = tv.as_slice();
    let gc = be_u16(t, 12);
    let long = be_u16(t, 14) % 2 == 1;
    let size: u64 = if long { 4 } else { 2 };
    let ac = be_u16(t, 4);
    let raw_flags = be_u16(t, 14);
    let flags = raw_flags & 1;
    let data_len: u64 = match gvar_offset_exec(t, gc as u64) {
        Some(o) => o,
        None => 0,
    };
    let offsets = offsets_list(t);
    let (shared, n_shared) = shared_tuples_list(t);
    let (loaded, _count) = gvar_batch_glyphs(t, 0, 100);
    let mut lazy = new_obj();
    push_entry(&mut lazy, "_is_lazy_array", Json::Bool(true));
    push_entry(&mut lazy, "lazy_command", crate::json::jstr("parse_gvar_batch"));
    push_entry(&mut lazy, "total", jnum(gc as u64));
    push_entry(&mut lazy, "loaded", jarr(loaded));
    let mut summary = crate::json::text("[");
    let d = crate::text::dec_string(gc as u64, 1);
    summary.append(d.as_str());
    summary.append(" records]");
    let mut o = new_obj();
    push_entry(&mut o, "majorVersion", parsed_field("uint16", jnum(be_u16(t, 0) as u64), 0, 2));
    push_entry(&mut o, "minorVersion", parsed_field("uint16", jnum(be_u16(t, 2) as u64), 2, 2));
    push_entry(&mut o, "axisCount", parsed_field("uint16", jnum(ac as u64), 4, 2));
    push_entry(&mut o, "sharedTupleCount", parsed_field("uint16", jnum(be_u16(t, 6) as u64), 6, 2));
    push_entry(&mut o, "sharedTuplesOffset", parsed_field("Offset32", jnum(be_u32(t, 8) as u64), 8, 4));
    push_entry(&mut o, "glyphCount", parsed_field("uint16", jnum(gc as u64), 12, 2));
    let fs = crate::tuple_variations::format_gvar_flags(flags);
    let ghost fsv = fs@;
    assert(sfield("uint16"@, JsonV::Num(flags as int), 14, 2)->Obj_0.push(("summary"@, JsonV::Str(fsv)))
        =~= sfield_sum("uint16"@, JsonV::Num(flags as int), 14, 2, fsv)->Obj_0);
    push_entry(&mut o, "flags", crate::json::with_summary(parsed_field("uint16", jnum(flags as u64), 14, 2), fs));
    push_entry(&mut o, "glyphVariationDataArrayOffset", parsed_field("Offset32", jnum(be_u32(t, 16) as u64), 16, 4));
    let ty = if long { "Offset32[]" } else { "Offset16[]" };
    proof {
        reveal_strlit("Offset32");
        reveal_strlit("Offset16");
        reveal_strlit("[]");
        reveal_strlit("Offset32[]");
        reveal_strlit("Offset16[]");
        assert(ty@ =~= (if gvar_long(t@) { "Offset32"@ } else { "Offset16"@ }) + "[]"@);
    }
    push_entry(&mut o, "glyphVariationDataOffsets", parsed_field_wide(ty, jarr(offsets), 20, (gc as u64 + 1) * size));
    assert(n_shared * (ac as u64) * 2 <= 0xFFFF * 0xFFFF * 2) by (nonlinear_arith)
        requires
            n_shared <= 0xFFFF,
            ac <= 0xFFFF,
    ;
    push_entry(&mut o, "sharedTuples", parsed_field_wide("Tuple[]", jarr(shared), be_u32(t, 8) as u64, n_shared * (ac as u64) * 2));
    let ghost sv = summary@;
    let lz = jobj(lazy);
    let ghost lzv = lz.jv();
    let ds = be_u32(t, 16) as u64;
    assert(sfield("GlyphVariationData[]"@, lzv, ds as int, data_len as int)->Obj_0.push(("summary"@, JsonV::Str(sv)))
        =~= sfield_sum("GlyphVariationData[]"@, lzv, ds as int, data_len as int, sv)->Obj_0);
    push_entry(&mut o, "glyphVariationData", crate::json::with_summary(parsed_field_wide("GlyphVariationData[]", lz, ds, data_len), summary));
    proof {
        let want = gvar_table_value(t@)->Obj_0;
        let got = jv_entries(o@);
        assert(sv =~= "["@ + crate::text::dec(gc as nat, 1) + " records]"@);
        assert(jv_entries(lazy@) =~= want[10].1->Obj_0[1].1->Obj_0);
        assert(got =~= want);
    }
    Ok(jobj(o))
}

} // verus!

verus! {

proof fn lemma_header_item_span(
    raw: Seq<u8>,
    f: (int, Seq<i16>, Option<Seq<i16>>, Option<Seq<i16>>),
    ac: int,
    abs: int,
    shared_start: int,
    shared: bool,
    c: int,
)
    ensures
        field_span(header_item(raw, f, ac, abs, shared_start, shared, c)) == Some((abs + c, header_len(tidx_at(raw, c), ac))),
{
    reveal(header_item);
}

proof fn lemma_tuple_data_span(raw: Seq<u8>, abs: int, d: int, c: int, sum: int, first: int, cvt: bool)
    ensures
        field_span(tuple_data_item(raw, abs, d, c, sum, first, cvt)) == Some((abs + first + sum, ro16(raw, c))),
{
    reveal(tuple_data_item);
}

/// The tuple variation headers of a glyph's variation data stand back to
/// back: the first right after the 4-byte glyph header, each one where the
/// one before it ends; and the data of the tuples likewise follow one
/// another, each as long as its header states.
pub proof fn tuple_records_are_contiguous(
    raw: Seq<u8>,
    facts: Seq<(int, Seq<i16>, Option<Seq<i16>>, Option<Seq<i16>>)>,
    ac: u16,
    abs: int,
    shared_start: int,
)
    ensures
        ({
            let v = glyph_var_obj(raw, facts, ac as int, abs, shared_start)->Obj_0;
            let inner = v[1].1->Obj_0;
            let headers = inner[0].1->Obj_0[1].1->Obj_0[2].1->Obj_0[1].1->Arr_0;
            let ser = inner[1].1->Obj_0[1].1->Obj_0;
            let data = ser[ser.len() - 1].1->Obj_0[1].1->Arr_0;
            &&& headers.len() == facts.len() && data.len() == facts.len()
            &&& (headers.len() > 0 ==> starts_at(headers[0], abs + 4))
            &&& forall|k: int| 0 <= k < headers.len() - 1 ==> follows(#[trigger] headers[k], headers[k + 1])
            &&& forall|k: int| 0 <= k < data.len() - 1 ==> follows(#[trigger] data[k], data[k + 1])
        }),
{
    let n = facts.len();
    let v = glyph_var_obj(raw, facts, ac as int, abs, shared_start)->Obj_0;
    let inner = v[1].1->Obj_0;
    let headers = inner[0].1->Obj_0[1].1->Obj_0[2].1->Obj_0[1].1->Arr_0;
    let ser = inner[1].1->Obj_0[1].1->Obj_0;
    let data = ser[ser.len() - 1].1->Obj_0[1].1->Arr_0;
    if headers.len() > 0 {
        lemma_header_item_span(raw, facts[0], ac as int, abs, shared_start, true, cursor_at(raw, ac as int, 0));
    }
    assert forall|k: int| 0 <= k < headers.len() - 1 implies follows(#[trigger] headers[k], headers[k + 1]) by {
        lemma_header_item_span(raw, facts[k], ac as int, abs, shared_start, true, cursor_at(raw, ac as int, k as nat));
        lemma_header_item_span(raw, facts[k + 1], ac as int, abs, shared_start, true, cursor_at(raw, ac as int, (k + 1) as nat));
        assert(cursor_at(raw, ac as int, (k + 1) as nat) == cursor_at(raw, ac as int, k as nat) + header_len(
            tidx_at(raw, cursor_at(raw, ac as int, k as nat)),
            ac as int,
        ));
    }
    assert forall|k: int| 0 <= k < data.len() - 1 implies follows(#[trigger] data[k], data[k + 1]) by {
        let first = u16_at(raw, 2) + shared_points_len(raw);
        lemma_tuple_data_span(raw, abs, facts[k].0, cursor_at(raw, ac as int, k as nat), data_sum(raw, ac as int, k as nat), first, false);
        lemma_tuple_data_span(raw, abs, facts[k + 1].0, cursor_at(raw, ac as int, (k + 1) as nat), data_sum(raw, ac as int, (k + 1) as nat), first, false);
        assert(data_sum(raw, ac as int, (k + 1) as nat) == data_sum(raw, ac as int, k as nat) + ro16(
            raw,
            cursor_at(raw, ac as int, k as nat),
        ));
    }
}

/// Lazy loading pages through the glyphs' variation data without a gap or
/// an overlap: a batch of `a` from `offset`, then a batch of `b` from where
/// it said the next one starts, hold the same glyphs as one batch of
/// `a + b` from `offset` (a batch holds at most a thousand).
pub proof fn consecutive_gvar_batches_tile(t: Seq<u8>, offset: nat, a: nat, b: nat)
    requires
        a + b <= 1000,
    ensures
        ({
            let n = gvar_glyph_count(t);
            let c1 = crate::glyf::batch_count(n, offset as int, a as int);
            let next = offset + c1;
            let c2 = crate::glyf::batch_count(n, next, b as int);
            gvar_batch_items(t, offset as int, c1) + gvar_batch_items(t, next, c2)
                == gvar_batch_items(t, offset as int, crate::glyf::batch_count(n, offset as int, (a + b) as int))
        }),
{
    let n = gvar_glyph_count(t);
    let c1 = crate::glyf::batch_count(n, offset as int, a as int);
    let next = offset + c1;
    let c2 = crate::glyf::batch_count(n, next, b as int);
    let c = crate::glyf::batch_count(n, offset as int, (a + b) as int);
    assert(c1 + c2 == c);
    assert(gvar_batch_items(t, offset as int, c1) + gvar_batch_items(t, next, c2) =~= gvar_batch_items(t, offset as int, c));
}

} // verus!
