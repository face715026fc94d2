use vstd::prelude::*;
use crate::text::{
    dec, dec_string, flag_names, hex_0x, hex_0x_string, join, join_strs, labelled,
    labelled_string, set_flag_names, strs_view, table_view,
};
use crate::json::text;
use crate::reader::{be_u16, small_len, u16_at};
use vstd::string::StringExecFns;

verus! {

/// The summary of a tupleVariationCount field: the shared-points flag and the count.
pub open spec fn spec_format_tuple_variation_count(val: u16) -> Seq<char> {
    let shared: Seq<Seq<char>> = if val & 0x8000 != 0 {
        seq!["SHARED_POINT_NUMBERS"@]
    } else {
        seq![]
    };
    labelled(hex_0x(val as nat, 4), join(shared.push("count: "@ + dec((val & 0x0FFF) as nat, 1)), ", "@))
}

pub fn format_tuple_variation_count(val: u16) -> (r: String)
    ensures
        r@ == spec_format_tuple_variation_count(val),
{
    let mut count = text("count: ");
    let d = dec_string((val & 0x0FFF) as u64, 1);
    count.append(d.as_str());
    let mut parts: Vec<&str> = Vec::new();
    if val & 0x8000 != 0 {
        parts.push("SHARED_POINT_NUMBERS");
    }
    parts.push(count.as_str());
    proof {
        let shared: Seq<Seq<char>> = if val & 0x8000 != 0 {
            seq!["SHARED_POINT_NUMBERS"@]
        } else {
            seq![]
        };
        assert(strs_view(parts@) =~= shared.push(count@));
    }
    let label = join_strs(&parts, ", ");
    labelled_string(hex_0x_string(val as u64, 4), label.as_str())
}

pub open spec fn tuple_index_flags() -> Seq<(u64, Seq<char>)> {
    seq![
        (0x8000, "EMBEDDED_PEAK_TUPLE"@),
        (0x4000, "INTERMEDIATE_REGION"@),
        (0x2000, "PRIVATE_POINT_NUMBERS"@),
    ]
}

/// The summary of a tupleIndex field: its flags, then the shared tuple index
/// where no peak tuple is embedded.
pub open spec fn spec_format_tuple_index(val: u16) -> Seq<char> {
    let flags = flag_names(val as u64, tuple_index_flags());
    let parts = if val & 0x8000 == 0 {
        flags.push("index: "@ + dec((val & 0x0FFF) as nat, 1))
    } else {
        flags
    };
    labelled(hex_0x(val as nat, 4), join(parts, ", "@))
}

pub fn format_tuple_index(val: u16) -> (r: String)
    ensures
        r@ == spec_format_tuple_index(val),
{
    let table: Vec<(u64, &'static str)> = vec![
        (0x8000, "EMBEDDED_PEAK_TUPLE"),
        (0x4000, "INTERMEDIATE_REGION"),
        (0x2000, "PRIVATE_POINT_NUMBERS"),
    ];
    assert(table_view(table@) =~= tuple_index_flags());
    let mut parts = set_flag_names(val as u64, &table);
    let ghost flags = strs_view(parts@);
    let mut index = text("index: ");
    let d = dec_string((val & 0x0FFF) as u64, 1);
    index.append(d.as_str());
    if val & 0x8000 == 0 {
        parts.push(index.as_str());
        assert(strs_view(parts@) =~= flags.push(index@));
    }
    let label = join_strs(&parts, ", ");
    labelled_string(hex_0x_string(val as u64, 4), label.as_str())
}

pub open spec fn spec_format_gvar_flags(val: u16) -> Seq<char> {
    labelled(
        hex_0x(val as nat, 4),
        if val & 0x0001 != 0 { "LONG_OFFSETS"@ } else { "SHORT_OFFSETS"@ },
    )
}

/// The gvar flags with the offset width they select.
pub fn format_gvar_flags(val: u16) -> (r: String)
    ensures
        r@ == spec_format_gvar_flags(val),
{
    let name = if val & 0x0001 != 0 { "LONG_OFFSETS" } else { "SHORT_OFFSETS" };
    labelled_string(hex_0x_string(val as u64, 4), name)
}

/// Where the point-number runs that start at `pos` end, having seen `seen`
/// of `n_points` points: each run is a control byte, then `(control & 0x7F) + 1`
/// numbers of one byte, or two where the control's high bit is set.
pub open spec fn point_runs_end(data: Seq<u8>, pos: nat, seen: nat, n_points: nat) -> nat
    decreases (if pos < data.len() { data.len() - pos } else { 0 }),
{
    if seen < n_points && pos < data.len() {
        let control = data[pos as int];
        let count = ((control & 0x7F) + 1) as nat;
        let word: nat = if control & 0x80 != 0 { 2 } else { 1 };
        point_runs_end(data, pos + 1 + word * count, seen + count, n_points)
    } else {
        pos
    }
}

pub open spec fn min_nat(a: nat, b: nat) -> nat {
    if a <= b { a } else { b }
}

/// The length of the packed point numbers at the start of `data`, cut at the
/// end of `data`.
pub open spec fn spec_packed_point_numbers_len(data: Seq<u8>) -> nat {
    if data.len() == 0 {
        0
    } else if data[0] == 0 {
        1
    } else if data[0] < 128 {
        min_nat(point_runs_end(data, 1, 0, data[0] as nat), data.len())
    } else if data.len() < 2 {
        data.len()
    } else {
        let count = (u16_at(data, 0) as u16 & 0x7FFF) as nat;
        if count == 0 {
            2
        } else {
            min_nat(point_runs_end(data, 2, 0, count), data.len())
        }
    }
}

pub fn get_packed_point_numbers_len(data: &[u8]) -> (r: usize)
    requires
        small_len(data@.len() as int),
    ensures
        r == spec_packed_point_numbers_len(data@),
        r <= data@.len(),
{
    if data.len() == 0 {
        return 0;
    }
    let first = data[0];
    if first == 0 {
        return 1;
    }
    if first >= 128 && data.len() < 2 {
        return data.len();
    }
    let count = if first < 128 {
        first as u16
    } else {
        let w = be_u16(data, 0);
        assert(w & 0x7FFF <= 0x7FFF) by (bit_vector);
        w & 0x7FFF
    };
    if count == 0 {
        return 2;
    }
    let n_points: u32 = count as u32;
    let mut n_bytes: usize = if first < 128 { 1 } else { 2 };
    let ghost start = n_bytes;
    let mut n_seen: u32 = 0;
    while n_seen < n_points && n_bytes < data.len()
        invariant
            n_bytes <= data@.len() + 512,
            small_len(data@.len() as int),
            n_points <= 0x7FFF,
            n_seen <= n_points + 128,
            point_runs_end(data@, n_bytes as nat, n_seen as nat, n_points as nat)
                == point_runs_end(data@, start as nat, 0, n_points as nat),
        decreases data@.len() + 512 - n_bytes,
    {
        let control = data[n_bytes];
        n_bytes = n_bytes + 1;
        assert(control & 0x7F <= 0x7F) by (bit_vector);
        let count: u32 = (control & 0x7F) as u32 + 1;
        let word_size: usize = if control & 0x80 != 0 { 2 } else { 1 };
        n_bytes = n_bytes + word_size * count as usize;
        n_seen = n_seen + count;
    }
    if n_bytes < data.len() {
        n_bytes
    } else {
        data.len()
    }
}

/// Where the packed delta runs that start at `pos` end, having seen `seen`
/// of `num_points` values: each run is a control byte, then
/// `(control & 0x3F) + 1` values of zero bytes (bit 0x80), two bytes (bit
/// 0x40) or one byte.
pub open spec fn delta_runs_end(data: Seq<u8>, pos: nat, seen: nat, num_points: nat) -> nat
    decreases (if pos < data.len() { data.len() - pos } else { 0 }),
{
    if seen < num_points && pos < data.len() {
        let control = data[pos as int];
        let count = ((control & 0x3F) + 1) as nat;
        let width: nat = if control & 0x80 != 0 {
            0
        } else if control & 0x40 != 0 {
            2
        } else {
            1
        };
        delta_runs_end(data, pos + 1 + width * count, seen + count, num_points)
    } else {
        pos
    }
}

/// The length of the packed deltas for `num_points` values at the start of
/// `data`, cut at the end of `data`.
pub open spec fn spec_packed_deltas_len(data: Seq<u8>, num_points: nat) -> nat {
    min_nat(delta_runs_end(data, 0, 0, num_points), data.len())
}

pub fn get_packed_deltas_len(data: &[u8], num_points: usize) -> (r: usize)
    requires
        small_len(data@.len() as int),
        small_len(num_points as int),
    ensures
        r == spec_packed_deltas_len(data@, num_points as nat),
        r <= data@.len(),
{
    let mut pos: usize = 0;
    let mut points_seen: usize = 0;
    while points_seen < num_points && pos < data.len()
        invariant
            pos <= data@.len() + 256,
            small_len(data@.len() as int),
            small_len(num_points as int),
            points_seen <= num_points + 64,
            delta_runs_end(data@, pos as nat, points_seen as nat, num_points as nat)
                == delta_runs_end(data@, 0, 0, num_points as nat),
        decreases data@.len() + 256 - pos,
    {
        let control = data[pos];
        pos = pos + 1;
        assert(control & 0x3F <= 0x3F) by (bit_vector);
        let run_count: usize = (control & 0x3F) as usize + 1;
        let width: usize = if control & 0x80 != 0 {
            0
        } else if control & 0x40 != 0 {
            2
        } else {
            1
        };
        pos = pos + run_count * width;
        points_seen = points_seen + run_count;
    }
    if pos < data.len() {
        pos
    } else {
        data.len()
    }
}

} // verus!
