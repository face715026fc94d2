use vstd::prelude::*;
use crate::json::{parsed_view, text, Json, JsonV};
use crate::font::{load_table, out_of_bounds, spec_load};
use crate::metrics::{keys_view, parse_metrics, spec_metrics, MetricKeys};
use crate::reader::{be_u16, small_len, u16_at};

verus! {

pub open spec fn header_tag() -> Seq<u8> {
    seq![118u8, 104u8, 101u8, 97u8]
}

pub open spec fn table_tag() -> Seq<u8> {
    seq![118u8, 109u8, 116u8, 120u8]
}

pub open spec fn vmtx_keys() -> (Seq<char>, Seq<char>, Seq<char>, Seq<char>, Seq<char>) {
    ("vMetrics"@, "LongVerMetric[]"@, "advanceHeight"@, "tsb"@, "topSideBearings"@)
}

/// The `vmtx` table of a font, described: the long metrics that `vhea`
/// counts (`numberOfLongVerMetrics`), then the top side bearings that follow.
/// The vertical header is read first, so its errors come first.
pub open spec fn spec_parse(font: Seq<u8>) -> Result<JsonV, Seq<char>> {
    match spec_load(font, header_tag()) {
        Err(e) => Err(e),
        Ok(h) => if h.len() < 36 {
            Err(out_of_bounds())
        } else {
            match spec_load(font, table_tag()) {
                Err(e) => Err(e),
                Ok(t) => Ok(spec_metrics(t, u16_at(h, 34), vmtx_keys())),
            }
        },
    }
}

/// Describes the `vmtx` table of a font.
pub fn parse(font: &[u8]) -> (r: Result<Json, String>)
    requires
        small_len(font@.len() as int),
    ensures
        parsed_view(r) == spec_parse(font@),
{
    let htag: Vec<u8> = vec![118u8, 104u8, 101u8, 97u8];
    assert(htag@ =~= header_tag());
    let h = match load_table(font, htag.as_slice()) {
        Err(e) => return Err(e),
        Ok(h) => h,
    };
    if h.len() < 36 {
        return Err(text("An offset was out of bounds"));
    }
    let n = be_u16(h.as_slice(), 34);
    let tag: Vec<u8> = vec![118u8, 109u8, 116u8, 120u8];
    assert(tag@ =~= table_tag());
    match load_table(font, tag.as_slice()) {
        Err(e) => Err(e),
        Ok(t) => {
            let k = MetricKeys {
                list: "vMetrics",
                list_ty: "LongVerMetric[]",
                advance: "advanceHeight",
                bearing: "tsb",
                rest: "topSideBearings",
            };
            assert(keys_view(k) == vmtx_keys());
            Ok(parse_metrics(t.as_slice(), n, &k))
        },
    }
}

} // verus!
