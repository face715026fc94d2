use vstd::prelude::*;
use crate::json::{
    jarr, jnum, jobj, jv_entries, jv_seq, new_arr, new_obj, parsed_field, parsed_field_wide,
    parsed_view, push_entry, push_item, sfield, text, Json, JsonV,
};
use crate::font::{load_table, out_of_bounds, spec_load};
use crate::reader::{be_i16, be_u16, be_u32, i16_at, small_len, u16_at, u32_at};

verus! {

pub open spec fn head_tag() -> Seq<u8> {
    seq![104u8, 101u8, 97u8, 100u8]
}

pub open spec fn loca_tag() -> Seq<u8> {
    seq![108u8, 111u8, 99u8, 97u8]
}

pub open spec fn maxp_tag() -> Seq<u8> {
    seq![109u8, 97u8, 120u8, 112u8]
}

/// Offset `i` of a location table, in bytes into the glyph data.
pub open spec fn raw_offset(l: Seq<u8>, i: int, long: bool) -> int {
    if long { u32_at(l, 4 * i) } else { 2 * u16_at(l, 2 * i) }
}

/// The location table of a font with `num_glyphs` glyphs, described: its
/// offsets, as many as the glyph count and one more, or as many as the
/// table holds.
pub open spec fn loca_value(l: Seq<u8>, long: bool, num_glyphs: int) -> JsonV {
    let bl = if long { 4int } else { 2int };
    let ty = if long { "Offset32"@ } else { "Offset16"@ };
    let held = l.len() as int / bl;
    let n = if num_glyphs + 1 < held { num_glyphs + 1 } else { held };
    JsonV::Obj(
        seq![
            (
                "offsets"@,
                sfield(
                    ty + "[]"@,
                    JsonV::Arr(Seq::new(n as nat, |i: int| sfield(ty, JsonV::Num(raw_offset(l, i, long)), i * bl, bl))),
                    0,
                    (num_glyphs + 1) * bl,
                ),
            ),
        ],
    )
}

/// The `loca` table of a font, described: the font header gives the offset
/// format and the maximum profile the glyph count. A table whose length is
/// not a whole number of offsets is refused.
pub open spec fn spec_parse(font: Seq<u8>) -> Result<JsonV, Seq<char>> {
    match spec_load(font, head_tag()) {
        Err(e) => Err(e),
        Ok(h) => if h.len() < 54 {
            Err(out_of_bounds())
        } else {
            let long = i16_at(h, 50) == 1;
            match spec_load(font, loca_tag()) {
                Err(e) => Err(e),
                Ok(l) => if l.len() as int % (if long { 4int } else { 2int }) != 0 {
                    Err("Specified array length not a multiple of item size"@)
                } else {
                    match spec_load(font, maxp_tag()) {
                        Err(e) => Err(e),
                        Ok(m) => if m.len() < 6 {
                            Err(out_of_bounds())
                        } else {
                            Ok(loca_value(l, long, u16_at(m, 4)))
                        },
                    }
                },
            }
        },
    }
}

/// Describes the offsets of a location table.
pub fn parse_offsets(l: &[u8], long: bool, num_glyphs: u16) -> (r: Json)
    requires
        small_len(l@.len() as int),
    ensures
        r.jv() == loca_value(l@, long, num_glyphs as int),
{
    let bl: usize = if long { 4 } else { 2 };
    let held = l.len() / bl;
    let n: usize = if (num_glyphs as usize) + 1 < held { num_glyphs as usize + 1 } else { held };
    let ty = if long { "Offset32" } else { "Offset16" };
    assert(ty@ == (if long { "Offset32"@ } else { "Offset16"@ }));
    let ghost want = Seq::new(n as nat, |i: int| sfield(ty@, JsonV::Num(raw_offset(l@, i, long)), i * bl, bl as int));
    let mut offsets = new_arr();
    let mut i: usize = 0;
    while i < n
        invariant
            i <= n,
            n <= held,
            held == l@.len() as int / (bl as int),
            bl == (if long { 4int } else { 2int }),
            small_len(l@.len() as int),
            want == Seq::new(n as nat, |i: int| sfield(ty@, JsonV::Num(raw_offset(l@, i, long)), i * bl, bl as int)),
            jv_seq(offsets@) == want.take(i as int),
        decreases n - i,
    {
        assert(i * bl + bl <= l@.len()) by (nonlinear_arith)
            requires i < held, held == l@.len() as int / (bl as int), bl > 0;
        let v: u64 = if long { be_u32(l, 4 * i) as u64 } else { 2 * (be_u16(l, 2 * i) as u64) };
        push_item(&mut offsets, parsed_field(ty, jnum(v), i * bl, bl));
        assert(want.take(i + 1) =~= want.take(i as int).push(want[i as int]));
        i = i + 1;
    }
    assert(want.take(n as int) =~= want);
    let mut arr_ty = text(ty);
    arr_ty.append("[]");
    let mut o = new_obj();
    let mut field = new_obj();
    push_entry(&mut field, "type", Json::Str(arr_ty));
    push_entry(&mut field, "value", jarr(offsets));
    push_entry(&mut field, "offset", jnum(0));
    push_entry(&mut field, "length", jnum(((num_glyphs as u64) + 1) * (bl as u64)));
    assert(jv_entries(field@) =~= sfield(
        ty@ + "[]"@,
        JsonV::Arr(jv_seq(offsets@)),
        0,
        (num_glyphs + 1) * bl,
    )->Obj_0);
    push_entry(&mut o, "offsets", jobj(field));
    assert(jv_entries(o@) =~= loca_value(l@, long, num_glyphs as int)->Obj_0);
    jobj(o)
}

/// Describes the `loca` table of a font.
pub fn parse(font: &[u8]) -> (r: Result<Json, String>)
    requires
        small_len(font@.len() as int),
    ensures
        parsed_view(r) == spec_parse(font@),
{
    let htag: Vec<u8> = vec![104u8, 101u8, 97u8, 100u8];
    assert(htag@ =~= head_tag());
    let h = match load_table(font, htag.as_slice()) {
        Err(e) => return Err(e),
        Ok(h) => h,
    };
    if h.len() < 54 {
        return Err(text("An offset was out of bounds"));
    }
    let long = be_i16(h.as_slice(), 50) == 1;
    let ltag: Vec<u8> = vec![108u8, 111u8, 99u8, 97u8];
    assert(ltag@ =~= loca_tag());
    let l = match load_table(font, ltag.as_slice()) {
        Err(e) => return Err(e),
        Ok(l) => l,
    };
    let bl: usize = if long { 4 } else { 2 };
    if l.len() % bl != 0 {
        return Err(text("Specified array length not a multiple of item size"));
    }
    let mtag: Vec<u8> = vec![109u8, 97u8, 120u8, 112u8];
    assert(mtag@ =~= maxp_tag());
    let m = match load_table(font, mtag.as_slice()) {
        Err(e) => return Err(e),
        Ok(m) => m,
    };
    if m.len() < 6 {
        return Err(text("An offset was out of bounds"));
    }
    Ok(parse_offsets(l.as_slice(), long, be_u16(m.as_slice(), 4)))
}

} // verus!
