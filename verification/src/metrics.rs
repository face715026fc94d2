use vstd::prelude::*;
use crate::json::{
    jarr, jint, jnum, jobj, jv_entries, jv_seq, new_arr, new_obj, parsed_field, push_entry,
    push_item, sfield, Json, JsonV,
};
use crate::reader::{be_i16, be_u16, i16_at, small_len, u16_at};

verus! {

/// The names under which a metrics table (`hmtx` or `vmtx`) is described:
/// the list of long metrics and its type, the two fields of a long metric,
/// and the list of the remaining side bearings.
pub struct MetricKeys {
    pub list: &'static str,
    pub list_ty: &'static str,
    pub advance: &'static str,
    pub bearing: &'static str,
    pub rest: &'static str,
}

pub open spec fn keys_view(k: MetricKeys) -> (Seq<char>, Seq<char>, Seq<char>, Seq<char>, Seq<char>) {
    (k.list@, k.list_ty@, k.advance@, k.bearing@, k.rest@)
}

/// The number of long metrics read: the count the header states, or none
/// where they would run past the table.
pub open spec fn long_count(len: int, n: int) -> int {
    if 4 * n <= len { n } else { 0 }
}

/// The number of side bearings after the long metrics: every whole 16-bit
/// value left, or none where the long metrics run past the table.
pub open spec fn rest_count(len: int, n: int) -> int {
    if 4 * n <= len { (len - 4 * n) / 2 } else { 0 }
}

/// Long metric `i`: its advance and its side bearing.
pub open spec fn long_metric(t: Seq<u8>, i: int, advance: Seq<char>, bearing: Seq<char>) -> JsonV {
    JsonV::Obj(
        seq![
            (advance, sfield("UFWORD"@, JsonV::Num(u16_at(t, 4 * i)), 4 * i, 2)),
            (bearing, sfield("FWORD"@, JsonV::Num(i16_at(t, 4 * i + 2)), 4 * i + 2, 2)),
        ],
    )
}

/// Long metric `i` shows its advance, read at `4 * i`, then its side bearing,
/// read two bytes later; a lone side bearing `j` after `m` long metrics is
/// read at `4 * m + 2 * j`.
pub proof fn metrics_read_their_bytes(t: Seq<u8>, i: int, m: int, j: int, advance: Seq<char>, bearing: Seq<char>)
    ensures
        long_metric(t, i, advance, bearing)->Obj_0 == seq![
            (advance, sfield("UFWORD"@, JsonV::Num(u16_at(t, 4 * i)), 4 * i, 2)),
            (bearing, sfield("FWORD"@, JsonV::Num(i16_at(t, 4 * i + 2)), 4 * i + 2, 2)),
        ],
        rest_bearing(t, m, j) == sfield("FWORD"@, JsonV::Num(i16_at(t, 4 * m + 2 * j)), 4 * m + 2 * j, 2),
{
}

/// Side bearing `j` after `m` long metrics.
pub open spec fn rest_bearing(t: Seq<u8>, m: int, j: int) -> JsonV {
    sfield("FWORD"@, JsonV::Num(i16_at(t, 4 * m + 2 * j)), 4 * m + 2 * j, 2)
}

/// A metrics table with `n` long metrics, described.
pub open spec fn spec_metrics(
    t: Seq<u8>,
    n: int,
    k: (Seq<char>, Seq<char>, Seq<char>, Seq<char>, Seq<char>),
) -> JsonV {
    let m = long_count(t.len() as int, n);
    let r = rest_count(t.len() as int, n);
    JsonV::Obj(
        seq![
            (k.0, sfield(k.1, JsonV::Arr(Seq::new(m as nat, |i: int| long_metric(t, i, k.2, k.3))), 0, 4 * m)),
            (k.4, sfield("FWORD[]"@, JsonV::Arr(Seq::new(r as nat, |j: int| rest_bearing(t, m, j))), 4 * m, 2 * r)),
        ],
    )
}

fn parse_long_metric(t: &[u8], index: usize, advance: &str, bearing: &str) -> (r: Json)
    requires
        4 * index + 4 <= t@.len(),
        small_len(t@.len() as int),
    ensures
        r.jv() == long_metric(t@, index as int, advance@, bearing@),
{
    let offset = index * 4;
    let mut o = new_obj();
    push_entry(&mut o, advance, parsed_field("UFWORD", jnum(be_u16(t, offset) as u64), offset, 2));
    push_entry(&mut o, bearing, parsed_field("FWORD", jint(be_i16(t, offset + 2) as i64), offset + 2, 2));
    assert(jv_entries(o@) =~= long_metric(t@, index as int, advance@, bearing@)->Obj_0);
    jobj(o)
}

/// Describes a metrics table whose header states `n` long metrics.
pub fn parse_metrics(t: &[u8], n: u16, k: &MetricKeys) -> (r: Json)
    requires
        small_len(t@.len() as int),
    ensures
        r.jv() == spec_metrics(t@, n as int, keys_view(*k)),
{
    let len = t.len();
    let m: usize = if 4 * (n as usize) <= len { n as usize } else { 0 };
    let rest: usize = if 4 * (n as usize) <= len { (len - 4 * (n as usize)) / 2 } else { 0 };
    let ghost kv = keys_view(*k);
    let ghost want_m = Seq::new(m as nat, |i: int| long_metric(t@, i, kv.2, kv.3));
    let mut metrics = new_arr();
    let mut i: usize = 0;
    while i < m
        invariant
            i <= m,
            4 * m <= t@.len(),
            small_len(t@.len() as int),
            kv == keys_view(*k),
            want_m == Seq::new(m as nat, |i: int| long_metric(t@, i, kv.2, kv.3)),
            jv_seq(metrics@) == want_m.take(i as int),
        decreases m - i,
    {
        let item = parse_long_metric(t, i, k.advance, k.bearing);
        push_item(&mut metrics, item);
        assert(want_m.take(i + 1) =~= want_m.take(i as int).push(want_m[i as int]));
        i = i + 1;
    }
    assert(want_m.take(m as int) =~= want_m);
    let ghost want_r = Seq::new(rest as nat, |j: int| rest_bearing(t@, m as int, j));
    let mut bearings = new_arr();
    let mut j: usize = 0;
    while j < rest
        invariant
            j <= rest,
            4 * m + 2 * rest <= t@.len(),
            small_len(t@.len() as int),
            want_r == Seq::new(rest as nat, |j: int| rest_bearing(t@, m as int, j)),
            jv_seq(bearings@) == want_r.take(j as int),
        decreases rest - j,
    {
        let off = 4 * m + 2 * j;
        push_item(&mut bearings, parsed_field("FWORD", jint(be_i16(t, off) as i64), off, 2));
        assert(want_r.take(j + 1) =~= want_r.take(j as int).push(want_r[j as int]));
        j = j + 1;
    }
    assert(want_r.take(rest as int) =~= want_r);
    let mut o = new_obj();
    push_entry(&mut o, k.list, parsed_field(k.list_ty, jarr(metrics), 0, 4 * m));
    push_entry(&mut o, k.rest, parsed_field("FWORD[]", jarr(bearings), 4 * m, 2 * rest));
    assert(jv_entries(o@) =~= spec_metrics(t@, n as int, kv)->Obj_0);
    jobj(o)
}

} // verus!
