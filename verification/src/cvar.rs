use vstd::prelude::*;
use vstd::slice::slice_subrange;
use read_fonts::tables::cvar::Cvar;
use read_fonts::tables::variations::Tuple;
use read_fonts::FontRead;
use crate::json::{
    jarr, jnum, jobj, jv_entries, jv_seq, new_arr, new_obj, parsed_field, parsed_field_wide,
    parsed_view, push_entry, push_item, sfield, sfield_sum, text, Json, JsonV,
};
use crate::font::{load_table, out_of_bounds, spec_load};
use crate::gvar::{
    byte_items, facts_fit, facts_seq, facts_view, fact_fits, fact_view, header_item,
    header_item_exec, header_len, ro16, tidx_at, tuple_data_item, tuple_data_item_exec, TupleFacts,
};
use crate::reader::{be_u16, small_len, u16_at};
use crate::tuple_variations::{
    format_tuple_variation_count, get_packed_point_numbers_len, spec_format_tuple_variation_count,
    spec_packed_point_numbers_len,
};

verus! {

/// The tuple variations that read-fonts yields for the control value
/// table's variations `table` with `axis_count` axes
/// (`Cvar::variation_data`, then `tuples`), or `None` where it gives none.
pub uninterp spec fn cvar_tuples(table: Seq<u8>, axis_count: u16) -> Option<
    Seq<(int, Seq<i16>, Option<Seq<i16>>, Option<Seq<i16>>)>,
>;

/// read-fonts' tuple variations of the control value table: the table is
/// read with `Cvar::read` and `Cvar::variation_data` gives its tuples for
/// `axis_count` axes, each handed out as the count of its `deltas`, its
/// `peak` and its `intermediate_start` and `intermediate_end`, by raw
/// values. The contract names the result and states what read-fonts'
/// source shows: for a table that holds its 8-byte header there are tuples
/// exactly where the data offset is neither null nor past the table; no
/// more tuples come than the header counts; and a tuple has at most as many
/// coordinates as the axes. How many deltas each decodes is left to the
/// name.
#[verifier::external_body]
fn read_cvt_tuples(table: &[u8], axis_count: u16) -> (r: Option<Vec<TupleFacts>>)
    ensures
        facts_view(r) == cvar_tuples(table@, axis_count),
        table@.len() >= 8 ==> (r is Some <==> (u16_at(table@, 6) != 0 && u16_at(table@, 6) <= table@.len())),
        r matches Some(f) ==> f@.len() <= u16_at(table@, 4) % 0x1000 && facts_fit(facts_seq(f@), axis_count as int),
{
    let cvar = Cvar::read(table.into()).ok()?;
    let data = cvar.variation_data(axis_count)?;
    let vals = |t: Tuple<'_>| t.values().iter().map(|v| v.get().to_bits()).collect::<Vec<i16>>();
    Some(data.tuples().map(|t| TupleFacts {
        deltas: t.deltas().count() as u64,
        peak: vals(t.peak()),
        start: t.intermediate_start().map(vals),
        end: t.intermediate_end().map(vals),
    }).collect())
}

/// Where tuple variation header `k` starts in the table.
pub open spec fn cvar_cursor(t: Seq<u8>, ac: int, k: nat) -> int
    decreases k,
{
    if k == 0 {
        8
    } else {
        let c = cvar_cursor(t, ac, (k - 1) as nat);
        c + header_len(tidx_at(t, c), ac)
    }
}

/// The serialized data sizes of the first `k` tuple variations.
pub open spec fn cvar_sum(t: Seq<u8>, ac: int, k: nat) -> int
    decreases k,
{
    if k == 0 {
        0
    } else {
        cvar_sum(t, ac, (k - 1) as nat) + ro16(t, cvar_cursor(t, ac, (k - 1) as nat))
    }
}

/// The length of the shared point numbers: they are read from a window of
/// 4096 bytes at the data offset, and taken as none where the table does
/// not hold that window.
pub open spec fn cvar_shared_len(t: Seq<u8>) -> int {
    let sdo = u16_at(t, 6);
    if u16_at(t, 4) as u16 & 0x8000 != 0 && sdo + 4096 <= t.len() {
        spec_packed_point_numbers_len(t.subrange(sdo, sdo + 4096)) as int
    } else {
        0
    }
}

/// The control value table's variations `t` for `ac` axes, described with
/// read-fonts' reading `facts` of its tuples.
pub open spec fn cvar_value(t: Seq<u8>, facts: Seq<(int, Seq<i16>, Option<Seq<i16>>, Option<Seq<i16>>)>, ac: int) -> JsonV {
    let n = facts.len();
    let tvc = u16_at(t, 4) as u16;
    let sdo = u16_at(t, 6);
    let has_shared = tvc & 0x8000 != 0;
    let spl = cvar_shared_len(t);
    let headers = Seq::new(n, |k: int| header_item(t, facts[k], ac, 0, 0, false, cvar_cursor(t, ac, k as nat)));
    let data = Seq::new(
        n,
        |k: int| tuple_data_item(t, 0, facts[k].0, cvar_cursor(t, ac, k as nat), cvar_sum(t, ac, k as nat), sdo + spl, true),
    );
    let serialized = (if has_shared {
        seq![("sharedPointNumbers"@, sfield("PackedPointNumbers"@, JsonV::Arr(byte_items(t, sdo, spl, sdo)), sdo, spl))]
    } else {
        seq![]
    }) + seq![
        (
            "perTupleData"@,
            sfield("TupleVariationData[]"@, JsonV::Arr(data), if has_shared { sdo + spl } else { sdo }, cvar_sum(t, ac, n)),
        ),
    ];
    JsonV::Obj(
        seq![
            ("majorVersion"@, sfield("uint16"@, JsonV::Num(u16_at(t, 0)), 0, 2)),
            ("minorVersion"@, sfield("uint16"@, JsonV::Num(u16_at(t, 2)), 2, 2)),
            ("tupleVariationCount"@, sfield_sum("uint16"@, JsonV::Num(tvc as int), 4, 2, spec_format_tuple_variation_count(tvc))),
            ("dataOffset"@, sfield("Offset16"@, JsonV::Num(sdo), 6, 2)),
            ("tupleVariationHeaders"@, sfield("TupleVariationHeader[]"@, JsonV::Arr(headers), 8, cvar_cursor(t, ac, n) - 8)),
            ("serializedData"@, sfield("SerializedData"@, JsonV::Obj(serialized), sdo, spl + cvar_sum(t, ac, n))),
        ],
    )
}

pub open spec fn cvar_tag() -> Seq<u8> {
    seq![99u8, 118u8, 97u8, 114u8]
}

pub open spec fn fvar_tag() -> Seq<u8> {
    seq![102u8, 118u8, 97u8, 114u8]
}

/// The control value table's variations of a font, described: the table
/// must hold its header, the font's variations table gives the axis count,
/// and the data offset must resolve.
pub open spec fn spec_parse(font: Seq<u8>) -> Result<JsonV, Seq<char>> {
    match spec_load(font, cvar_tag()) {
        Err(e) => Err(e),
        Ok(t) => if t.len() < 8 {
            Err(out_of_bounds())
        } else {
            match spec_load(font, fvar_tag()) {
                Err(e) => Err(e),
                Ok(f) => if f.len() < 16 {
                    Err(out_of_bounds())
                } else if u16_at(t, 6) == 0 {
                    Err("An offset was unexpectedly null"@)
                } else if u16_at(t, 6) > t.len() {
                    Err(out_of_bounds())
                } else {
                    match cvar_tuples(t, u16_at(f, 8) as u16) {
                        Some(facts) => Ok(cvar_value(t, facts, u16_at(f, 8))),
                        None => Err(out_of_bounds()),
                    }
                },
            }
        },
    }
}

proof fn lemma_cvar_cursor_bound(t: Seq<u8>, ac: int, k: nat)
    requires
        0 <= ac <= 0xFFFF,
    ensures
        8 <= cvar_cursor(t, ac, k) <= 8 + 393214 * k,
        0 <= cvar_sum(t, ac, k) <= 0xFFFF * k,
    decreases k,
{
    if k > 0 {
        lemma_cvar_cursor_bound(t, ac, (k - 1) as nat);
        let c = cvar_cursor(t, ac, (k - 1) as nat);
        assert(4 <= header_len(tidx_at(t, c), ac) <= 393214);
        assert(0 <= ro16(t, c) <= 0xFFFF);
    }
}

} // verus!

verus! {

fn cvar_shared_len_exec(t: &[u8]) -> (r: usize)
    requires
        t@.len() >= 8,
        small_len(t@.len() as int),
    ensures
        r == cvar_shared_len(t@),
        r <= 4096,
{
    let sdo = be_u16(t, 6) as usize;
    if be_u16(t, 4) & 0x8000 != 0 && sdo + 4096 <= t.len() {
        get_packed_point_numbers_len(slice_subrange(t, sdo, sdo + 4096))
    } else {
        0
    }
}

/// Describes the control value table's variations `t` for `ac` axes, with
/// read-fonts' reading of its tuples.
fn cvar_exec(t: &[u8], facts: &Vec<TupleFacts>, ac: u16) -> (r: Json)
    requires
        8 <= t@.len() < 0x1_0000_0000,
        small_len(t@.len() as int),
        facts@.len() <= 0xFFF,
        facts_fit(facts_seq(facts@), ac as int),
    ensures
        r.jv() == cvar_value(t@, facts_seq(facts@), ac as int),
{
    let ghost fv = facts_seq(facts@);
    let ghost n = facts@.len();
    let ghost want_h = Seq::new(n, |k: int| header_item(t@, fv[k], ac as int, 0, 0, false, cvar_cursor(t@, ac as int, k as nat)));
    let mut headers = new_arr();
    let mut c: u64 = 8;
    let mut k: usize = 0;
    while k < facts.len()
        invariant
            k <= facts@.len() <= 0xFFF,
            8 <= t@.len() < 0x1_0000_0000,
            fv == facts_seq(facts@),
            facts_fit(fv, ac as int),
            c == cvar_cursor(t@, ac as int, k as nat),
            n == facts@.len(),
            want_h == Seq::new(n, |k: int| header_item(t@, fv[k], ac as int, 0, 0, false, cvar_cursor(t@, ac as int, k as nat))),
            jv_seq(headers@) == want_h.take(k as int),
        decreases facts@.len() - k,
    {
        proof {
            lemma_cvar_cursor_bound(t@, ac as int, k as nat);
            assert(fv[k as int] == fact_view(facts@[k as int]));
            assert(fact_fits(fv[k as int], ac as int));
        }
        let item = header_item_exec(t, &facts[k], ac, 0, 0, false, c);
        push_item(&mut headers, item);
        assert(want_h.take(k + 1) =~= want_h.take(k as int).push(want_h[k as int]));
        let ti = crate::gvar::ro16_exec(t, c + 2);
        c = c + crate::gvar::header_len_exec(ti, ac);
        k = k + 1;
    }
    assert(want_h.take(n as int) =~= want_h);
    let spl = cvar_shared_len_exec(t);
    let sdo = be_u16(t, 6) as u64;
    let first: u64 = sdo + spl as u64;
    let ghost want_d = Seq::new(
        n,
        |k: int| tuple_data_item(t@, 0, fv[k].0, cvar_cursor(t@, ac as int, k as nat), cvar_sum(t@, ac as int, k as nat), first as int, true),
    );
    let mut data = new_arr();
    let mut c2: u64 = 8;
    let mut sum: u64 = 0;
    let mut k2: usize = 0;
    while k2 < facts.len()
        invariant
            k2 <= facts@.len() <= 0xFFF,
            8 <= t@.len() < 0x1_0000_0000,
            fv == facts_seq(facts@),
            first <= 0xFFFF + 4096,
            c2 == cvar_cursor(t@, ac as int, k2 as nat),
            sum == cvar_sum(t@, ac as int, k2 as nat),
            n == facts@.len(),
            want_d == Seq::new(
                n,
                |k: int| tuple_data_item(t@, 0, fv[k].0, cvar_cursor(t@, ac as int, k as nat), cvar_sum(t@, ac as int, k as nat), first as int, true),
            ),
            jv_seq(data@) == want_d.take(k2 as int),
        decreases facts@.len() - k2,
    {
        proof {
            lemma_cvar_cursor_bound(t@, ac as int, k2 as nat);
            lemma_cvar_cursor_bound(t@, ac as int, (k2 + 1) as nat);
            assert(fv[k2 as int] == fact_view(facts@[k2 as int]));
        }
        let item = tuple_data_item_exec(t, 0, facts[k2].deltas, c2, sum, first, true);
        push_item(&mut data, item);
        assert(want_d.take(k2 + 1) =~= want_d.take(k2 as int).push(want_d[k2 as int]));
        let vds = crate::gvar::ro16_exec(t, c2);
        let ti = crate::gvar::ro16_exec(t, c2 + 2);
        sum = sum + vds as u64;
        c2 = c2 + crate::gvar::header_len_exec(ti, ac);
        k2 = k2 + 1;
    }
    assert(want_d.take(n as int) =~= want_d);
    proof {
        lemma_cvar_cursor_bound(t@, ac as int, n);
    }
    let tvc = be_u16(t, 4);
    let has_shared = tvc & 0x8000 != 0;
    let mut ser = new_obj();
    if has_shared {
        let items = if spl > 0 { crate::gvar::byte_items_exec(t, sdo as usize, spl, sdo) } else { new_arr() };
        assert(jv_seq(items@) =~= byte_items(t@, sdo as int, spl as int, sdo as int));
        push_entry(&mut ser, "sharedPointNumbers", parsed_field_wide("PackedPointNumbers", jarr(items), sdo, spl as u64));
    }
    let pt_off = if has_shared { sdo + spl as u64 } else { sdo };
    push_entry(&mut ser, "perTupleData", parsed_field_wide("TupleVariationData[]", jarr(data), pt_off, sum));
    let mut o = new_obj();
    push_entry(&mut o, "majorVersion", parsed_field("uint16", jnum(be_u16(t, 0) as u64), 0, 2));
    push_entry(&mut o, "minorVersion", parsed_field("uint16", jnum(be_u16(t, 2) as u64), 2, 2));
    let ts = format_tuple_variation_count(tvc);
    let ghost tsv = ts@;
    assert(sfield("uint16"@, JsonV::Num(tvc as int), 4, 2)->Obj_0.push(("summary"@, JsonV::Str(tsv)))
        =~= sfield_sum("uint16"@, JsonV::Num(tvc as int), 4, 2, tsv)->Obj_0);
    push_entry(&mut o, "tupleVariationCount", crate::json::with_summary(parsed_field("uint16", jnum(tvc as u64), 4, 2), ts));
    push_entry(&mut o, "dataOffset", parsed_field("Offset16", jnum(sdo), 6, 2));
    push_entry(&mut o, "tupleVariationHeaders", parsed_field_wide("TupleVariationHeader[]", jarr(headers), 8, c - 8));
    push_entry(&mut o, "serializedData", parsed_field_wide("SerializedData", jobj(ser), sdo, spl as u64 + sum));
    proof {
        let want = cvar_value(t@, fv, ac as int)->Obj_0;
        assert(jv_entries(ser@) =~= want[5].1->Obj_0[1].1->Obj_0);
        assert(jv_entries(o@) =~= want);
    }
    jobj(o)
}

/// Describes the control value table's variations of a font.
pub fn parse(font: &[u8]) -> (r: Result<Json, String>)
    requires
        small_len(font@.len() as int),
    ensures
        parsed_view(r) == spec_parse(font@),
{
    let ctag: Vec<u8> = vec![99u8, 118u8, 97u8, 114u8];
    assert(ctag@ =~= cvar_tag());
    let t = match load_table(font, ctag.as_slice()) {
        Err(e) => return Err(e),
        Ok(t) => t,
    };
    if t.len() < 8 {
        return Err(text("An offset was out of bounds"));
    }
    let ftag: Vec<u8> = vec![102u8, 118u8, 97u8, 114u8];
    assert(ftag@ =~= fvar_tag());
    let f = match load_table(font, ftag.as_slice()) {
        Err(e) => return Err(e),
        Ok(f) => f,
    };
    if f.len() < 16 {
        return Err(text("An offset was out of bounds"));
    }
    let sdo = be_u16(t.as_slice(), 6) as usize;
    if sdo == 0 {
        return Err(text("An offset was unexpectedly null"));
    }
    if sdo > t.len() {
        return Err(text("An offset was out of bounds"));
    }
    let ac = be_u16(f.as_slice(), 8);
    match read_cvt_tuples(t.as_slice(), ac) {
        None => Err(text("An offset was out of bounds")),
        Some(facts) => Ok(cvar_exec(t.as_slice(), &facts, ac)),
    }
}

} // verus!
