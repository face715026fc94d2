use vstd::prelude::*;
use vstd::slice::slice_subrange;
use crate::reader::{be_u16, be_u32, small_len, u16_at, u32_at};
use crate::json::{
    jarr, jnum, jobj, jv_entries, jv_seq, new_arr, new_obj, parsed_field, push_entry, push_item, sfield, text, Json, JsonV,
};
use crate::text::{dec_string, opt_text};
use vstd::string::{StrSliceExecFns, StringExecFns};

verus! {

/// Whether a DICT byte starts an operator (the others start operands).
pub open spec fn is_operator(b0: u8) -> bool {
    b0 <= 27 || b0 == 31
}

/// Whether a byte of a real-number operand holds the end nibble.
pub open spec fn ends_real(b: u8) -> bool {
    (b & 0x0F) == 0x0F || (b >> 4) == 0x0F
}

/// The number of nibble bytes of a real number from `cur` on, up to and
/// including the byte with the end nibble, or to the end of the data.
pub open spec fn real_tail(data: Seq<u8>, cur: int) -> nat
    decreases data.len() - cur,
{
    if cur < 0 || cur >= data.len() {
        0
    } else if ends_real(data[cur]) {
        1
    } else {
        1 + real_tail(data, cur + 1)
    }
}

/// The length of the operand that starts at `pos`.
pub open spec fn operand_len(data: Seq<u8>, pos: int) -> nat {
    let b0 = data[pos];
    if b0 == 28 {
        3
    } else if b0 == 29 {
        5
    } else if b0 == 30 {
        1 + real_tail(data, pos + 1)
    } else if 32 <= b0 <= 246 {
        1
    } else if 247 <= b0 <= 254 {
        2
    } else {
        1
    }
}

/// The length of the token (operator or operand) that starts at `pos`: a
/// two-byte operator starts with 12.
pub open spec fn token_len(data: Seq<u8>, pos: int) -> nat {
    if is_operator(data[pos]) {
        if data[pos] == 12 && pos + 1 < data.len() { 2 } else { 1 }
    } else {
        operand_len(data, pos)
    }
}

/// The (start, length) of each DICT entry, operands and operator together,
/// from `pos` on, the current entry having started at `entry_start`.
pub open spec fn entries_from(data: Seq<u8>, pos: int, entry_start: int) -> Seq<(int, int)>
    decreases (if 0 <= pos < data.len() { data.len() - pos } else { 0 }),
{
    if pos < 0 || pos >= data.len() {
        seq![]
    } else {
        let next = pos + token_len(data, pos);
        if is_operator(data[pos]) {
            seq![(entry_start, next - entry_start)] + entries_from(data, next, next)
        } else {
            entries_from(data, next, entry_start)
        }
    }
}

/// The (offset, length) of each leading operand, up to the first operator.
pub open spec fn operands_from(data: Seq<u8>, pos: int) -> Seq<(int, int)>
    decreases (if 0 <= pos < data.len() { data.len() - pos } else { 0 }),
{
    if pos < 0 || pos >= data.len() || is_operator(data[pos]) {
        seq![]
    } else {
        seq![(pos, operand_len(data, pos) as int)] + operands_from(
            data,
            pos + operand_len(data, pos),
        )
    }
}

proof fn lemma_entries_tile(data: Seq<u8>, pos: int, start: int)
    requires
        0 <= start <= pos,
    ensures
        ({
            let e = entries_from(data, pos, start);
            &&& e.len() > 0 ==> e[0].0 == start
            &&& forall|k: int| 0 <= k < e.len() ==> (#[trigger] e[k]).1 >= 1 && e[k].0 + e[k].1 <= data.len()
            &&& forall|k: int| 0 <= k < e.len() - 1 ==> (#[trigger] e[k]).0 + e[k].1 == e[k + 1].0
        }),
    decreases (if 0 <= pos < data.len() { data.len() - pos } else { 0 }),
{
    if 0 <= pos < data.len() {
        let next = pos + token_len(data, pos);
        if is_operator(data[pos]) {
            lemma_entries_tile(data, next, next);
        } else {
            lemma_entries_tile(data, next, start);
        }
    }
}

/// The entries of a DICT follow one another: the first starts at the start
/// of the data, each starts where the one before it ends, none is empty,
/// and none runs past the data.
pub proof fn dict_entries_are_contiguous(data: Seq<u8>)
    ensures
        ({
            let e = entries_from(data, 0, 0);
            &&& e.len() > 0 ==> e[0].0 == 0
            &&& forall|k: int| 0 <= k < e.len() ==> (#[trigger] e[k]).1 >= 1 && e[k].0 + e[k].1 <= data.len()
            &&& forall|k: int| 0 <= k < e.len() - 1 ==> (#[trigger] e[k]).0 + e[k].1 == e[k + 1].0
        }),
{
    lemma_entries_tile(data, 0, 0);
}

/// Where the first operator at or after `pos` stands (or where the data
/// ends, if none does).
pub open spec fn next_op(data: Seq<u8>, pos: int) -> int
    decreases (if 0 <= pos < data.len() { data.len() - pos } else { 0 }),
{
    if pos < 0 || pos >= data.len() || is_operator(data[pos]) {
        pos
    } else {
        next_op(data, pos + operand_len(data, pos))
    }
}

/// Where a run of operands that starts at `q` ends.
pub open spec fn ops_end(ops: Seq<(int, int)>, q: int) -> int {
    if ops.len() == 0 { q } else { ops.last().0 + ops.last().1 }
}

proof fn lemma_operand_len_pos(data: Seq<u8>, pos: int)
    requires
        0 <= pos < data.len(),
    ensures
        operand_len(data, pos) >= 1,
{
}

proof fn lemma_next_op_after(data: Seq<u8>, pos: int)
    requires
        0 <= pos,
    ensures
        next_op(data, pos) >= pos,
        next_op(data, pos) < data.len() ==> is_operator(data[next_op(data, pos)])
            && next_op(data, pos) + token_len(data, next_op(data, pos)) <= data.len(),
    decreases (if 0 <= pos < data.len() { data.len() - pos } else { 0 }),
{
    if pos < data.len() && !is_operator(data[pos]) {
        lemma_operand_len_pos(data, pos);
        lemma_next_op_after(data, pos + operand_len(data, pos));
    }
}

/// Scanning from `pos`, the next entry runs from `start` through the next
/// operator.
proof fn lemma_entries_step(data: Seq<u8>, pos: int, start: int)
    requires
        0 <= start <= pos,
    ensures
        ({
            let p = next_op(data, pos);
            let e = entries_from(data, pos, start);
            if 0 <= p < data.len() {
                e == seq![(start, p + token_len(data, p) - start)] + entries_from(
                    data,
                    p + token_len(data, p),
                    p + token_len(data, p),
                )
            } else {
                e.len() == 0
            }
        }),
    decreases (if 0 <= pos < data.len() { data.len() - pos } else { 0 }),
{
    if 0 <= pos < data.len() && !is_operator(data[pos]) {
        lemma_operand_len_pos(data, pos);
        lemma_entries_step(data, pos + operand_len(data, pos), start);
    }
}

/// Each entry, from the scan at `pos` on, runs through the first operator
/// at or after its start.
proof fn lemma_entries_end_at_operators(data: Seq<u8>, pos: int)
    requires
        0 <= pos,
    ensures
        forall|k: int| 0 <= k < entries_from(data, pos, pos).len() ==> {
            let (s, l) = #[trigger] entries_from(data, pos, pos)[k];
            let p = next_op(data, s);
            &&& 0 <= s <= p < data.len()
            &&& s + l == p + token_len(data, p)
        },
    decreases (if 0 <= pos < data.len() { data.len() - pos } else { 0 }),
{
    lemma_entries_step(data, pos, pos);
    lemma_next_op_after(data, pos);
    let p = next_op(data, pos);
    if 0 <= p < data.len() {
        let n = p + token_len(data, p);
        assert(token_len(data, p) >= 1);
        lemma_entries_end_at_operators(data, n);
        let e = entries_from(data, pos, pos);
        assert forall|k: int| 0 <= k < e.len() implies {
            let (s, l) = #[trigger] e[k];
            let q = next_op(data, s);
            &&& 0 <= s <= q < data.len()
            &&& s + l == q + token_len(data, q)
        } by {
            if k > 0 {
                assert(e[k] == entries_from(data, n, n)[k - 1]);
            }
        }
    }
}

proof fn lemma_real_tail_within(data: Seq<u8>, s: int, b: int, c: int)
    requires
        0 <= s <= c,
        b <= data.len(),
        c + real_tail(data, c) < b,
    ensures
        real_tail(data.subrange(s, b), c - s) == real_tail(data, c),
    decreases data.len() - c,
{
    let sub = data.subrange(s, b);
    if c < data.len() && !ends_real(data[c]) {
        lemma_real_tail_within(data, s, b, c + 1);
    }
    if c < b {
        assert(sub[c - s] == data[c]);
    }
}

/// Scanning the operands of an entry on its own bytes ends where the
/// operator of the entry stands.
proof fn lemma_operands_in_entry(data: Seq<u8>, s: int, b: int, pos: int)
    requires
        0 <= s <= pos,
        next_op(data, pos) < data.len(),
        b == next_op(data, pos) + token_len(data, next_op(data, pos)),
    ensures
        ops_end(operands_from(data.subrange(s, b), pos - s), pos - s) == next_op(data, pos) - s,
    decreases data.len() - pos,
{
    let sub = data.subrange(s, b);
    let p = next_op(data, pos);
    lemma_next_op_after(data, pos);
    assert(token_len(data, p) >= 1);
    assert(sub[pos - s] == data[pos]);
    if !is_operator(data[pos]) {
        let len = operand_len(data, pos);
        lemma_operand_len_pos(data, pos);
        lemma_next_op_after(data, pos + len);
        if data[pos] == 30 {
            lemma_real_tail_within(data, s, b, pos + 1);
        }
        assert(operand_len(sub, pos - s) == len);
        lemma_operands_in_entry(data, s, b, pos + len);
        let rest = operands_from(sub, pos - s + len);
        assert(operands_from(sub, pos - s) == seq![(pos - s, len as int)] + rest);
        if rest.len() > 0 {
            assert((seq![(pos - s, len as int)] + rest).last() == rest.last());
        }
    }
}

/// The operands of each DICT entry end exactly where its operator starts:
/// reading the entry's own bytes, its operands run up to an operator byte,
/// and the operator (one byte, or two after the escape byte 12) fills the
/// rest of the entry.
pub proof fn entry_operands_end_at_operator(data: Seq<u8>, k: int)
    requires
        0 <= k < entries_from(data, 0, 0).len(),
    ensures
        ({
            let (s, l) = entries_from(data, 0, 0)[k];
            let sub = data.subrange(s, s + l);
            let e = ops_end(operands_from(sub, 0), 0);
            &&& e < l
            &&& is_operator(sub[e])
            &&& l - e == (if sub[e] == 12 && e + 1 < l { 2int } else { 1int })
        }),
{
    lemma_entries_end_at_operators(data, 0);
    let ent = entries_from(data, 0, 0)[k];
    let s = ent.0;
    let l = ent.1;
    let p = next_op(data, s);
    assert(0 <= s <= p < data.len() && s + l == p + token_len(data, p));
    lemma_next_op_after(data, s);
    lemma_operands_in_entry(data, s, s + l, s);
    let sub = data.subrange(s, s + l);
    assert(sub[p - s] == data[p]);
}

pub open spec fn pairs_view(v: Seq<(usize, usize)>) -> Seq<(int, int)> {
    v.map_values(|p: (usize, usize)| (p.0 as int, p.1 as int))
}

proof fn lemma_real_tail_bound(data: Seq<u8>, cur: int)
    ensures
        real_tail(data, cur) <= if 0 <= cur < data.len() { data.len() - cur } else { 0 },
    decreases data.len() - cur,
{
    if 0 <= cur < data.len() && !ends_real(data[cur]) {
        lemma_real_tail_bound(data, cur + 1);
    }
}

/// The length of the real-number operand at `pos`.
fn real_operand_len(data: &[u8], pos: usize) -> (r: usize)
    requires
        pos < data@.len(),
        small_len(data@.len() as int),
    ensures
        r == 1 + real_tail(data@, pos + 1),
        r <= data@.len() - pos,
{
    let mut len: usize = 1;
    let mut cur: usize = pos + 1;
    let mut done = false;
    proof {
        lemma_real_tail_bound(data@, pos + 1);
    }
    while !done && cur < data.len()
        invariant
            pos + 1 <= cur <= data@.len(),
            len == cur - pos,
            done ==> len == 1 + real_tail(data@, pos + 1),
            !done ==> len + real_tail(data@, cur as int) == 1 + real_tail(data@, pos + 1),
        decreases data@.len() - cur,
    {
        let b = data[cur];
        len = len + 1;
        cur = cur + 1;
        if (b & 0x0F) == 0x0F || (b >> 4) == 0x0F {
            done = true;
        }
    }
    len
}

fn operand_length(data: &[u8], pos: usize) -> (r: usize)
    requires
        pos < data@.len(),
        small_len(data@.len() as int),
    ensures
        r == operand_len(data@, pos as int),
        r <= 5 || r <= data@.len() - pos,
{
    let b0 = data[pos];
    if b0 == 28 {
        3
    } else if b0 == 29 {
        5
    } else if b0 == 30 {
        real_operand_len(data, pos)
    } else if 32 <= b0 && b0 <= 246 {
        1
    } else if 247 <= b0 && b0 <= 254 {
        2
    } else {
        1
    }
}

/// The (start, length) within `data` of each DICT entry: its operands and
/// the operator that ends it.
pub fn get_dict_entry_offsets(data: &[u8]) -> (r: Vec<(usize, usize)>)
    requires
        small_len(data@.len() as int),
    ensures
        pairs_view(r@) == entries_from(data@, 0, 0),
{
    let mut offsets: Vec<(usize, usize)> = Vec::new();
    let mut pos: usize = 0;
    let mut entry_start: usize = 0;
    while pos < data.len()
        invariant
            small_len(data@.len() as int),
            entry_start <= pos <= data@.len() + 5,
            pairs_view(offsets@) + entries_from(data@, pos as int, entry_start as int)
                == entries_from(data@, 0, 0),
        decreases data@.len() + 5 - pos,
    {
        let b0 = data[pos];
        let is_op = b0 <= 27 || b0 == 31;
        let token_len = if is_op {
            if b0 == 12 && pos + 1 < data.len() { 2 } else { 1 }
        } else {
            operand_length(data, pos)
        };
        let ghost prev = offsets@;
        pos = pos + token_len;
        if is_op {
            offsets.push((entry_start, pos - entry_start));
            assert(pairs_view(offsets@) =~= pairs_view(prev) + seq![
                (entry_start as int, pos - entry_start),
            ]);
            entry_start = pos;
        }
    }
    assert(pairs_view(offsets@) =~= pairs_view(offsets@) + Seq::<(int, int)>::empty());
    offsets
}

/// The (start, length) within `data` of each operand before the first operator.
pub fn get_dict_operand_offsets(data: &[u8]) -> (r: Vec<(usize, usize)>)
    requires
        small_len(data@.len() as int),
    ensures
        pairs_view(r@) == operands_from(data@, 0),
{
    let mut offsets: Vec<(usize, usize)> = Vec::new();
    let mut pos: usize = 0;
    let mut done = false;
    while !done && pos < data.len()
        invariant
            small_len(data@.len() as int),
            pos <= data@.len() + 5,
            done ==> operands_from(data@, pos as int) == Seq::<(int, int)>::empty(),
            pairs_view(offsets@) + operands_from(data@, pos as int) == operands_from(data@, 0),
        decreases data@.len() + 5 - pos, if done { 0int } else { 1int },
    {
        let b0 = data[pos];
        if b0 <= 27 || b0 == 31 {
            done = true;
        } else {
            let len = operand_length(data, pos);
            let ghost prev = offsets@;
            offsets.push((pos, len));
            assert(pairs_view(offsets@) =~= pairs_view(prev) + seq![(pos as int, len as int)]);
            pos = pos + len;
        }
    }
    assert(pairs_view(offsets@) =~= pairs_view(offsets@) + Seq::<(int, int)>::empty());
    offsets
}

} // verus!

verus! {

/// The bytes that an INDEX of `size` bytes at `offset` covers, cut at the end
/// of the table.
pub open spec fn index_bytes(t: Seq<u8>, offset: int, size: int) -> Seq<u8> {
    if offset + size <= t.len() {
        t.subrange(offset, offset + size)
    } else {
        t.subrange(offset, t.len() as int)
    }
}

/// An offset of `n` bytes at `pos`, big-endian, kept in 32 bits: bytes beyond
/// the last four shift the first ones out.
pub open spec fn offset_value(b: Seq<u8>, pos: int, n: nat) -> int
    decreases n,
{
    if n == 0 {
        0
    } else {
        (offset_value(b, pos, (n - 1) as nat) * 256 + b[pos + n - 1]) % 0x1_0000_0000
    }
}

/// The type name of an offset of `off_size` bytes; the bit count is kept in
/// eight bits.
pub open spec fn offset_type(off_size: u8) -> Seq<char> {
    "Offset"@ + crate::text::dec(((off_size as int * 8) % 256) as nat, 1)
}

pub open spec fn offset_items(ib: Seq<u8>, index_offset: int, start: int, off_size: u8, n: nat) -> Seq<JsonV> {
    Seq::new(
        n,
        |i: int|
            sfield(
                offset_type(off_size),
                JsonV::Num(offset_value(ib, start + i * off_size, off_size as nat)),
                index_offset + start + i * off_size,
                off_size as int,
            ),
    )
}

/// The described fields of a CFF or CFF2 INDEX of `index_size` bytes at
/// `index_offset`: its count, and where there are objects, its offset size,
/// its offsets and its data (given as `data_list`).
pub open spec fn spec_parse_index(
    t: Seq<u8>,
    index_offset: int,
    index_size: int,
    data_list: JsonV,
    data_type: Seq<char>,
    is_cff2: bool,
) -> JsonV {
    let ib = index_bytes(t, index_offset, index_size);
    let count_len: int = if is_cff2 { 4 } else { 2 };
    let count_type = if is_cff2 { "uint32"@ } else { "uint16"@ };
    if ib.len() < count_len {
        JsonV::Obj(seq![("count"@, sfield(count_type, JsonV::Num(0), index_offset, count_len))])
    } else {
        let count = if is_cff2 { u32_at(ib, 0) } else { u16_at(ib, 0) };
        let count_entry = ("count"@, sfield(count_type, JsonV::Num(count), index_offset, count_len));
        if count == 0 || ib.len() < count_len + 1 {
            JsonV::Obj(seq![count_entry])
        } else {
            let off_size = ib[count_len];
            let size_entry = (
                "offsetSize"@,
                sfield("uint8"@, JsonV::Num(off_size as int), index_offset + count_len, 1),
            );
            let offsets_count = count + 1;
            let offsets_byte_len = offsets_count * off_size;
            let offsets_start = count_len + 1;
            if ib.len() >= offsets_start + offsets_byte_len {
                let data_start = offsets_start + offsets_byte_len;
                let data_len = if index_size > data_start { index_size - data_start } else { 0 };
                JsonV::Obj(
                    seq![
                        count_entry,
                        size_entry,
                        (
                            "offsets"@,
                            sfield(
                                offset_type(off_size) + "[]"@,
                                JsonV::Arr(
                                    offset_items(
                                        ib,
                                        index_offset,
                                        offsets_start,
                                        off_size,
                                        offsets_count as nat,
                                    ),
                                ),
                                index_offset + offsets_start,
                                offsets_byte_len,
                            ),
                        ),
                        (
                            "data"@,
                            sfield(
                                data_type + "[]"@,
                                data_list,
                                index_offset + data_start,
                                data_len,
                            ),
                        ),
                    ],
                )
            } else {
                JsonV::Obj(seq![count_entry, size_entry])
            }
        }
    }
}

fn offset_type_string(off_size: u8) -> (r: String)
    ensures
        r@ == offset_type(off_size),
{
    let mut s = text("Offset");
    let bits: u64 = ((off_size as u64) * 8) % 256;
    let d = dec_string(bits, 1);
    s.append(d.as_str());
    s
}

fn read_offset_value(ib: &[u8], pos: usize, n: u8) -> (r: u32)
    requires
        pos + n <= ib@.len(),
        small_len(ib@.len() as int),
    ensures
        r == offset_value(ib@, pos as int, n as nat),
{
    let mut v: u32 = 0;
    let mut j: u8 = 0;
    while j < n
        invariant
            j <= n,
            pos + n <= ib@.len(),
            small_len(ib@.len() as int),
            v == offset_value(ib@, pos as int, j as nat),
        decreases n - j,
    {
        assert(pos + j < ib@.len());
        let jj: usize = j as usize;
        let k: usize = pos + jj;
        let b: u64 = ib[k] as u64;
        v = (((v as u64) * 256 + b) % 0x1_0000_0000) as u32;
        j = j + 1;
    }
    v
}

/// Describes a CFF or CFF2 INDEX of `index_size` bytes at `index_offset` of
/// the table: its count, and where there are objects, its offset size, its
/// offsets and its data, which `data_list` gives.
pub fn parse_index(
    cff_table: &[u8],
    index_offset: usize,
    index_size: usize,
    data_list: Json,
    data_type: &str,
    is_cff2: bool,
) -> (r: Json)
    requires
        index_offset <= cff_table@.len(),
        small_len(cff_table@.len() as int),
    ensures
        r.jv() == spec_parse_index(
            cff_table@,
            index_offset as int,
            index_size as int,
            data_list.jv(),
            data_type@,
            is_cff2,
        ),
{
    let end = if index_size <= cff_table.len() - index_offset {
        index_offset + index_size
    } else {
        cff_table.len()
    };
    let ib = slice_subrange(cff_table, index_offset, end);
    let ghost ibv = index_bytes(cff_table@, index_offset as int, index_size as int);
    let ghost dl = data_list.jv();
    assert(ib@ =~= ibv);
    let count_len: usize = if is_cff2 { 4 } else { 2 };
    let count_type = if is_cff2 { "uint32" } else { "uint16" };
    let mut map = new_obj();
    if ib.len() < count_len {
        push_entry(&mut map, "count", parsed_field(count_type, jnum(0), index_offset, count_len));
        return jobj(map);
    }
    let count: u64 = if is_cff2 { be_u32(ib, 0) as u64 } else { be_u16(ib, 0) as u64 };
    push_entry(&mut map, "count", parsed_field(count_type, jnum(count), index_offset, count_len));
    if count == 0 || ib.len() < count_len + 1 {
        return jobj(map);
    }
    let off_size = ib[count_len];
    push_entry(
        &mut map,
        "offsetSize",
        parsed_field("uint8", jnum(off_size as u64), index_offset + count_len, 1),
    );
    assert(count <= 0xFFFF_FFFF);
    let offsets_count: u64 = count + 1;
    assert(offsets_count * off_size <= 0x1_0000_0000 * 255) by (nonlinear_arith)
        requires
            offsets_count <= 0x1_0000_0000,
    ;
    let offsets_byte_len: u64 = offsets_count * off_size as u64;
    let offsets_start: usize = count_len + 1;
    if (ib.len() as u64) >= offsets_start as u64 + offsets_byte_len {
        let obl = offsets_byte_len as usize;
        let mut offsets_array = new_arr();
        let mut i: u64 = 0;
        while i < offsets_count
            invariant
                offsets_count <= 0x1_0000_0000,
                (offsets_start as u64 + offsets_count * off_size as u64) <= ib@.len(),
                index_offset + ib@.len() <= cff_table@.len(),
                small_len(cff_table@.len() as int),
                i <= offsets_count,
                jv_seq(offsets_array@) == offset_items(
                    ib@,
                    index_offset as int,
                    offsets_start as int,
                    off_size,
                    offsets_count as nat,
                ).take(i as int),
            decreases offsets_count - i,
        {
            assert(i * off_size + off_size <= offsets_count * off_size) by (nonlinear_arith)
                requires
                    i < offsets_count,
            ;
            let offset_pos = offsets_start + (i * off_size as u64) as usize;
            let offset_val = read_offset_value(ib, offset_pos, off_size);
            let ty = offset_type_string(off_size);
            push_item(
                &mut offsets_array,
                parsed_field(
                    ty.as_str(),
                    jnum(offset_val as u64),
                    index_offset + offset_pos,
                    off_size as usize,
                ),
            );
            assert(jv_seq(offsets_array@) =~= offset_items(
                ib@,
                index_offset as int,
                offsets_start as int,
                off_size,
                offsets_count as nat,
            ).take(i + 1));
            i = i + 1;
        }
        assert(offset_items(
            ib@,
            index_offset as int,
            offsets_start as int,
            off_size,
            offsets_count as nat,
        ).take(offsets_count as int) =~= offset_items(
            ib@,
            index_offset as int,
            offsets_start as int,
            off_size,
            offsets_count as nat,
        ));
        let mut arr_ty = offset_type_string(off_size);
        arr_ty.append("[]");
        push_entry(
            &mut map,
            "offsets",
            parsed_field(arr_ty.as_str(), jarr(offsets_array), index_offset + offsets_start, obl),
        );
        let data_start = offsets_start + obl;
        let data_len = if index_size > data_start { index_size - data_start } else { 0 };
        let mut data_ty = text(data_type);
        data_ty.append("[]");
        push_entry(
            &mut map,
            "data",
            parsed_field(data_ty.as_str(), data_list, index_offset + data_start, data_len),
        );
    }
    proof {
        let sp = spec_parse_index(cff_table@, index_offset as int, index_size as int, dl, data_type@, is_cff2);
        assert(jv_entries(map@) =~= sp->Obj_0);
    }
    jobj(map)
}

} // verus!

verus! {

/// The number of charset ranges described: ranges are taken in order until
/// the glyphs they cover (`nLeft + 1` each) reach `target`, or the data ends.
pub open spec fn ranges_taken(d: Seq<u8>, rec: int, i: nat, n: nat, total: int, target: int) -> nat
    decreases n - i,
{
    if i >= n {
        i
    } else {
        let t = total + range_left(d, rec, i as int) + 1;
        if t >= target {
            i + 1
        } else {
            ranges_taken(d, rec, i + 1, n, t, target)
        }
    }
}

/// The `nLeft` of charset range `i` (one byte in format 1, two in format 2).
pub open spec fn range_left(d: Seq<u8>, rec: int, i: int) -> int {
    if rec == 3 {
        d[1 + 3 * i + 2] as int
    } else {
        u16_at(d, 1 + 4 * i + 2)
    }
}

pub open spec fn charset_range_item(offset: int, d: Seq<u8>, rec: int, i: int) -> JsonV {
    let at = offset + 1 + i * rec;
    sfield(
        "DICT"@,
        JsonV::Obj(
            seq![
                ("first"@, sfield("SID"@, JsonV::Num(u16_at(d, 1 + rec * i)), at, 2)),
                (
                    "nLeft"@,
                    sfield(
                        if rec == 3 { "uint8"@ } else { "uint16"@ },
                        JsonV::Num(range_left(d, rec, i)),
                        at + 2,
                        rec - 2,
                    ),
                ),
            ],
        ),
        at,
        rec,
    )
}

pub open spec fn min_int(a: int, b: int) -> int {
    if a <= b { a } else { b }
}

/// A custom charset at `offset` of a CFF table, described for `num_glyphs`
/// glyphs, with its size; `None` for the predefined charsets (offset 0 to 2),
/// an offset past the table, or an unknown format.
pub open spec fn spec_parse_charset(t: Seq<u8>, offset: int, num_glyphs: int) -> Option<
    (JsonV, int),
> {
    if offset <= 2 || offset >= t.len() {
        None
    } else {
        let d = t.subrange(offset, t.len() as int);
        let format = d[0];
        let target = if num_glyphs >= 1 { num_glyphs - 1 } else { 0 };
        let format_entry = ("format"@, sfield("uint8"@, JsonV::Num(format as int), offset, 1));
        if format == 0 {
            let avail = (d.len() - 1) / 2;
            let glyphs = Seq::new(
                min_int(target, avail) as nat,
                |i: int| sfield("SID"@, JsonV::Num(u16_at(d, 1 + 2 * i)), offset + 1 + i * 2, 2),
            );
            Some(
                (
                    JsonV::Obj(
                        seq![
                            format_entry,
                            ("glyph"@, sfield("SID[]"@, JsonV::Arr(glyphs), offset + 1, target * 2)),
                        ],
                    ),
                    1 + target * 2,
                ),
            )
        } else if format == 1 || format == 2 {
            let rec: int = if format == 1 { 3 } else { 4 };
            let k = ranges_taken(d, rec, 0, ((d.len() - 1) / rec) as nat, 0, target);
            let ranges = Seq::new(k, |i: int| charset_range_item(offset, d, rec, i));
            Some(
                (
                    JsonV::Obj(
                        seq![
                            format_entry,
                            (
                                "ranges"@,
                                sfield(
                                    if format == 1 { "Range1[]"@ } else { "Range2[]"@ },
                                    JsonV::Arr(ranges),
                                    offset + 1,
                                    k * rec,
                                ),
                            ),
                        ],
                    ),
                    1 + k * rec,
                ),
            )
        } else {
            None
        }
    }
}

pub open spec fn opt_pair_view(r: Option<(Json, usize)>) -> Option<(JsonV, int)> {
    match r {
        Some(p) => Some((p.0.jv(), p.1 as int)),
        None => None,
    }
}

proof fn lemma_ranges_taken_bound(d: Seq<u8>, rec: int, i: nat, n: nat, total: int, target: int)
    requires
        i <= n,
    ensures
        i <= ranges_taken(d, rec, i, n, total, target) <= n,
        i < n ==> i < ranges_taken(d, rec, i, n, total, target),
    decreases n - i,
{
    if i < n {
        let t = total + range_left(d, rec, i as int) + 1;
        if t < target {
            lemma_ranges_taken_bound(d, rec, i + 1, n, t, target);
        }
    }
}

/// Describes a custom charset at `offset` of a CFF table for `num_glyphs`
/// glyphs, with its size in bytes.
pub fn parse_charset(offset: usize, cff_table_bytes: &[u8], num_glyphs: u32) -> (r: Option<
    (Json, usize),
>)
    requires
        small_len(cff_table_bytes@.len() as int),
        1 + 2 * num_glyphs <= usize::MAX,
    ensures
        opt_pair_view(r) == spec_parse_charset(cff_table_bytes@, offset as int, num_glyphs as int),
{
    if offset <= 2 || offset >= cff_table_bytes.len() {
        return None;
    }
    let d = slice_subrange(cff_table_bytes, offset, cff_table_bytes.len());
    let format = d[0];
    let target: u64 = if num_glyphs >= 1 { num_glyphs as u64 - 1 } else { 0 };
    let ghost spec = spec_parse_charset(cff_table_bytes@, offset as int, num_glyphs as int);
    let mut map = new_obj();
    if format == 0 {
        push_entry(&mut map, "format", parsed_field("uint8", jnum(0), offset, 1));
        let avail = (d.len() - 1) / 2;
        let n: usize = if (target as usize) < avail { target as usize } else { avail };
        let ghost glyphs = Seq::new(
            n as nat,
            |i: int| sfield("SID"@, JsonV::Num(u16_at(d@, 1 + 2 * i)), offset + 1 + i * 2, 2),
        );
        let mut items = new_arr();
        let mut i: usize = 0;
        while i < n
            invariant
                i <= n,
                n <= avail,
                avail == (d@.len() - 1) / 2,
                offset < cff_table_bytes@.len(),
                small_len(cff_table_bytes@.len() as int),
                d@.len() == cff_table_bytes@.len() - offset,
                glyphs == Seq::new(
                    n as nat,
                    |i: int| sfield("SID"@, JsonV::Num(u16_at(d@, 1 + 2 * i)), offset + 1 + i * 2, 2),
                ),
                jv_seq(items@) == glyphs.take(i as int),
            decreases n - i,
        {
            let g = be_u16(d, 1 + 2 * i);
            push_item(&mut items, parsed_field("SID", jnum(g as u64), offset + 1 + i * 2, 2));
            assert(jv_seq(items@) =~= glyphs.take(i + 1));
            i = i + 1;
        }
        assert(glyphs.take(n as int) =~= glyphs);
        let len = (target as usize) * 2;
        push_entry(&mut map, "glyph", parsed_field("SID[]", jarr(items), offset + 1, len));
        proof {
            assert(jv_entries(map@) =~= spec->Some_0.0->Obj_0);
        }
        return Some((jobj(map), 1 + len));
    }
    if format != 1 && format != 2 {
        return None;
    }
    push_entry(&mut map, "format", parsed_field("uint8", jnum(format as u64), offset, 1));
    let rec: usize = if format == 1 { 3 } else { 4 };
    let avail = (d.len() - 1) / rec;
    let ghost k = ranges_taken(d@, rec as int, 0, avail as nat, 0, target as int);
    let ghost items_spec = Seq::new(k, |i: int| charset_range_item(offset as int, d@, rec as int, i));
    proof {
        lemma_ranges_taken_bound(d@, rec as int, 0, avail as nat, 0, target as int);
    }
    let mut items = new_arr();
    let mut total: u64 = 0;
    let mut i: usize = 0;
    let mut done = false;
    while !done && i < avail
        invariant
            i <= avail,
            avail == (d@.len() - 1) / rec as int,
            rec == 3 || rec == 4,
            format == d@[0],
            rec == (if format == 1 { 3int } else { 4int }),
            offset < cff_table_bytes@.len(),
            small_len(cff_table_bytes@.len() as int),
            d@.len() == cff_table_bytes@.len() - offset,
            !done ==> total <= 0xFFFF_FFFF,
            target <= 0xFFFF_FFFF,
            k == ranges_taken(d@, rec as int, 0, avail as nat, 0, target as int),
            items_spec == Seq::new(k, |i: int| charset_range_item(offset as int, d@, rec as int, i)),
            !done ==> k == ranges_taken(d@, rec as int, i as nat, avail as nat, total as int, target as int),
            done ==> k == i,
            jv_seq(items@) == items_spec.take(i as int),
            k <= avail,
        decreases avail - i, if done { 0int } else { 1int },
    {
        proof {
            lemma_ranges_taken_bound(d@, rec as int, i as nat, avail as nat, total as int, target as int);
        }
        assert(rec * i + rec <= d@.len() - 1 && i * rec == rec * i) by (nonlinear_arith)
            requires
                i < avail,
                avail == (d@.len() - 1) / rec as int,
                rec > 0,
        ;
        let at = offset + 1 + i * rec;
        let first = be_u16(d, 1 + rec * i);
        let mut range = new_obj();
        push_entry(&mut range, "first", parsed_field("SID", jnum(first as u64), at, 2));
        let n_left: u64 = if rec == 3 { d[1 + 3 * i + 2] as u64 } else { be_u16(d, 1 + 4 * i + 2) as u64 };
        let left_ty = if rec == 3 { "uint8" } else { "uint16" };
        push_entry(&mut range, "nLeft", parsed_field(left_ty, jnum(n_left), at + 2, rec - 2));
        proof {
            assert(jv_entries(range@) =~= charset_range_item(offset as int, d@, rec as int, i as int)->Obj_0[1].1->Obj_0);
        }
        push_item(&mut items, parsed_field("DICT", jobj(range), at, rec));
        assert(jv_seq(items@) =~= items_spec.take(i + 1));
        total = total + n_left + 1;
        i = i + 1;
        if total >= target {
            done = true;
        }
    }
    let klen = i * rec;
    let mut ty = if format == 1 { text("Range1[]") } else { text("Range2[]") };
    push_entry(&mut map, "ranges", parsed_field(ty.as_str(), jarr(items), offset + 1, klen));
    proof {
        assert(items_spec.take(k as int) =~= items_spec);
        assert(jv_entries(map@) =~= spec->Some_0.0->Obj_0);
    }
    Some((jobj(map), 1 + klen))
}

} // verus!

verus! {

pub open spec fn fd_range_item(ro: int, d: Seq<u8>, rec: int, i: int) -> JsonV {
    let at = ro + i * rec;
    let base = if rec == 3 { 3 + 3 * i } else { 5 + 6 * i };
    sfield(
        "DICT"@,
        JsonV::Obj(
            seq![
                (
                    "first"@,
                    sfield(
                        if rec == 3 { "uint16"@ } else { "uint32"@ },
                        JsonV::Num(if rec == 3 { u16_at(d, base) } else { u32_at(d, base) }),
                        at,
                        if rec == 3 { 2 } else { 4 },
                    ),
                ),
                (
                    "fontDictID"@,
                    sfield(
                        if rec == 3 { "uint8"@ } else { "uint16"@ },
                        JsonV::Num(if rec == 3 { d[base + 2] as int } else { u16_at(d, base + 4) }),
                        at + if rec == 3 { 2int } else { 4int },
                        if rec == 3 { 1 } else { 2 },
                    ),
                ),
            ],
        ),
        at,
        rec,
    )
}

/// The FDSelect at `offset` of a CFF table, described for `num_glyphs`
/// glyphs, with its size. Format 0 lists one FD index per glyph; formats 3
/// and 4 list ranges (three or six bytes each) and a sentinel. A range array
/// that runs past the data is read as empty, a sentinel past it as 0.
pub open spec fn spec_parse_fd_select(t: Seq<u8>, offset: int, num_glyphs: int) -> Option<
    (JsonV, int),
> {
    if offset >= t.len() {
        None
    } else {
        let d = t.subrange(offset, t.len() as int);
        let format = d[0];
        let format_entry = ("format"@, sfield("uint8"@, JsonV::Num(format as int), offset, 1));
        if format == 0 {
            let n = min_int(num_glyphs, d.len() - 1);
            let ids = Seq::new(n as nat, |i: int| JsonV::Num(d[1 + i] as int));
            Some(
                (
                    JsonV::Obj(
                        seq![
                            format_entry,
                            ("fontDictIDs"@, sfield("uint8[]"@, JsonV::Arr(ids), offset + 1, n)),
                        ],
                    ),
                    1 + n,
                ),
            )
        } else if (format == 3 && d.len() >= 5) || (format == 4 && d.len() >= 9) {
            let rec: int = if format == 3 { 3 } else { 6 };
            let head: int = if format == 3 { 3 } else { 5 };
            let width: int = if format == 3 { 2 } else { 4 };
            let n_ranges = if format == 3 { u16_at(d, 1) } else { u32_at(d, 1) };
            let r = if head + n_ranges * rec <= d.len() { n_ranges } else { 0 };
            let sentinel_at = head + n_ranges * rec;
            let sentinel = if sentinel_at + width <= d.len() {
                if format == 3 { u16_at(d, sentinel_at) } else { u32_at(d, sentinel_at) }
            } else {
                0
            };
            let ro = offset + head;
            let ranges = Seq::new(r as nat, |i: int| fd_range_item(ro, d, rec, i));
            let num_type = if format == 3 { "uint16"@ } else { "uint32"@ };
            Some(
                (
                    JsonV::Obj(
                        seq![
                            format_entry,
                            ("numRanges"@, sfield(num_type, JsonV::Num(r), offset + 1, width)),
                            (
                                "ranges"@,
                                sfield(
                                    if format == 3 { "Range3[]"@ } else { "Range4[]"@ },
                                    JsonV::Arr(ranges),
                                    ro,
                                    r * rec,
                                ),
                            ),
                            ("sentinel"@, sfield(num_type, JsonV::Num(sentinel), ro + r * rec, width)),
                        ],
                    ),
                    head + r * rec + width,
                ),
            )
        } else {
            None
        }
    }
}

/// Describes the FDSelect at `offset` of a CFF table for `num_glyphs`
/// glyphs, with its size in bytes.
pub fn parse_fd_select(offset: usize, cff_table_bytes: &[u8], num_glyphs: u32) -> (r: Option<
    (Json, usize),
>)
    requires
        small_len(cff_table_bytes@.len() as int),
    ensures
        opt_pair_view(r) == spec_parse_fd_select(cff_table_bytes@, offset as int, num_glyphs as int),
{
    if offset >= cff_table_bytes.len() {
        return None;
    }
    let d = slice_subrange(cff_table_bytes, offset, cff_table_bytes.len());
    let format = d[0];
    let ghost spec = spec_parse_fd_select(cff_table_bytes@, offset as int, num_glyphs as int);
    let mut map = new_obj();
    if format == 0 {
        push_entry(&mut map, "format", parsed_field("uint8", jnum(0), offset, 1));
        let n: usize = if (num_glyphs as usize) < d.len() - 1 { num_glyphs as usize } else { d.len() - 1 };
        let ghost ids = Seq::new(n as nat, |i: int| JsonV::Num(d@[1 + i] as int));
        let mut items = new_arr();
        let mut i: usize = 0;
        while i < n
            invariant
                i <= n,
                n <= d@.len() - 1,
                ids == Seq::new(n as nat, |i: int| JsonV::Num(d@[1 + i] as int)),
                jv_seq(items@) == ids.take(i as int),
            decreases n - i,
        {
            push_item(&mut items, jnum(d[1 + i] as u64));
            assert(jv_seq(items@) =~= ids.take(i + 1));
            i = i + 1;
        }
        assert(ids.take(n as int) =~= ids);
        push_entry(&mut map, "fontDictIDs", parsed_field("uint8[]", jarr(items), offset + 1, n));
        proof {
            assert(jv_entries(map@) =~= spec->Some_0.0->Obj_0);
        }
        return Some((jobj(map), 1 + n));
    }
    if !((format == 3 && d.len() >= 5) || (format == 4 && d.len() >= 9)) {
        return None;
    }
    push_entry(&mut map, "format", parsed_field("uint8", jnum(format as u64), offset, 1));
    let rec: usize = if format == 3 { 3 } else { 6 };
    let head: usize = if format == 3 { 3 } else { 5 };
    let width: usize = if format == 3 { 2 } else { 4 };
    let n_ranges: u64 = if format == 3 { be_u16(d, 1) as u64 } else { be_u32(d, 1) as u64 };
    let fits = (head as u64) + n_ranges * (rec as u64) <= d.len() as u64;
    let r: usize = if fits { n_ranges as usize } else { 0 };
    let sentinel_at: u64 = head as u64 + n_ranges * rec as u64;
    let sentinel: u64 = if sentinel_at + width as u64 <= d.len() as u64 {
        if format == 3 { be_u16(d, sentinel_at as usize) as u64 } else { be_u32(d, sentinel_at as usize) as u64 }
    } else {
        0
    };
    let ro = offset + head;
    let num_type = if format == 3 { "uint16" } else { "uint32" };
    push_entry(&mut map, "numRanges", parsed_field(num_type, jnum(r as u64), offset + 1, width));
    let ghost ranges = Seq::new(r as nat, |i: int| fd_range_item(ro as int, d@, rec as int, i));
    let mut items = new_arr();
    let mut i: usize = 0;
    while i < r
        invariant
            i <= r,
            head + r * rec <= d@.len(),
            rec == 3 || rec == 6,
            head == (if rec == 3 { 3int } else { 5int }),
            ro == offset + head,
            offset < cff_table_bytes@.len(),
            small_len(cff_table_bytes@.len() as int),
            d@.len() == cff_table_bytes@.len() - offset,
            ranges == Seq::new(r as nat, |i: int| fd_range_item(ro as int, d@, rec as int, i)),
            jv_seq(items@) == ranges.take(i as int),
        decreases r - i,
    {
        assert(head + rec * i + rec <= d@.len() && i * rec == rec * i) by (nonlinear_arith)
            requires
                i < r,
                head + r * rec <= d@.len(),
                rec > 0,
        ;
        let at = ro + i * rec;
        let base = head + rec * i;
        let mut range = new_obj();
        if rec == 3 {
            push_entry(&mut range, "first", parsed_field("uint16", jnum(be_u16(d, base) as u64), at, 2));
            push_entry(&mut range, "fontDictID", parsed_field("uint8", jnum(d[base + 2] as u64), at + 2, 1));
        } else {
            push_entry(&mut range, "first", parsed_field("uint32", jnum(be_u32(d, base) as u64), at, 4));
            push_entry(&mut range, "fontDictID", parsed_field("uint16", jnum(be_u16(d, base + 4) as u64), at + 4, 2));
        }
        proof {
            assert(jv_entries(range@) =~= fd_range_item(ro as int, d@, rec as int, i as int)->Obj_0[1].1->Obj_0);
        }
        push_item(&mut items, parsed_field("DICT", jobj(range), at, rec));
        assert(jv_seq(items@) =~= ranges.take(i + 1));
        i = i + 1;
    }
    assert(ranges.take(r as int) =~= ranges);
    let ty = if format == 3 { "Range3[]" } else { "Range4[]" };
    push_entry(&mut map, "ranges", parsed_field(ty, jarr(items), ro, r * rec));
    push_entry(&mut map, "sentinel", parsed_field(num_type, jnum(sentinel), ro + r * rec, width));
    proof {
        assert(jv_entries(map@) =~= spec->Some_0.0->Obj_0);
    }
    Some((jobj(map), head + r * rec + width))
}

} // verus!

verus! {

/// What reading a CFF or CFF2 INDEX gives: its count, its offset size, its
/// size in bytes where the last offset can be read, and for each object its
/// start within the object data and its length, where they can be read.
pub struct CffIndexRead {
    pub count: u32,
    pub off_size: u8,
    pub size: Option<usize>,
    pub objects: Vec<(Option<usize>, Option<usize>)>,
}

pub open spec fn index_read_view(r: CffIndexRead) -> (u32, u8, Option<usize>, Seq<(Option<usize>, Option<usize>)>) {
    (r.count, r.off_size, r.size, r.objects@)
}

pub open spec fn opt_index_read_view(r: Option<CffIndexRead>) -> Option<(u32, u8, Option<usize>, Seq<(Option<usize>, Option<usize>)>)> {
    match r {
        Some(ix) => Some(index_read_view(ix)),
        None => None,
    }
}

/// The length of an INDEX's count field.
pub open spec fn count_len(is_cff2: bool) -> int {
    if is_cff2 { 4 } else { 2 }
}

/// Where an INDEX's object data starts, counted from the INDEX's first byte.
pub open spec fn index_data_start(is_cff2: bool, count: int, off_size: int) -> int {
    count_len(is_cff2) + 1 + (count + 1) * off_size
}

/// The count field of an INDEX: 16 bits in CFF, 32 in CFF2.
pub open spec fn raw_count(d: Seq<u8>, is_cff2: bool) -> int {
    if is_cff2 { u32_at(d, 0) } else { u16_at(d, 0) }
}

/// Whether the offset array of an INDEX lies within its bytes.
pub open spec fn offsets_fit(d: Seq<u8>, is_cff2: bool) -> bool {
    index_data_start(is_cff2, raw_count(d, is_cff2), d[count_len(is_cff2)] as int) <= d.len()
}

/// Offset `i` of an INDEX, as read-fonts reads it (`get_offset`): the
/// big-endian value minus one, where the offset array lies within the
/// bytes, the offset size is 1 to 4, `i` is at most the count and the
/// value is not 0.
pub open spec fn index_offset(d: Seq<u8>, is_cff2: bool, i: int) -> Option<usize> {
    let o = d[count_len(is_cff2)] as int;
    if offsets_fit(d, is_cff2) && 1 <= o <= 4 && 0 <= i <= raw_count(d, is_cff2) {
        let v = offset_value(d, count_len(is_cff2) + 1 + i * o, o as nat);
        if v >= 1 { Some((v - 1) as usize) } else { None }
    } else {
        None
    }
}

/// The length of object `i` of an INDEX, as read-fonts gives it (`get`):
/// where both its offsets can be read, are in order and end within the
/// object data.
pub open spec fn index_object_len(d: Seq<u8>, is_cff2: bool, i: int) -> Option<usize> {
    let data_len = d.len() - index_data_start(is_cff2, raw_count(d, is_cff2), d[count_len(is_cff2)] as int);
    match (index_offset(d, is_cff2, i), index_offset(d, is_cff2, i + 1)) {
        (Some(a), Some(b)) => if a <= b && b <= data_len { Some((b - a) as usize) } else { None },
        _ => None,
    }
}

/// What read-fonts reads from the bytes of an INDEX (`Index::new`, then
/// `count`, `off_size`, `size_in_bytes`, and `get_offset` and `get` for each
/// object): the empty form (a zero count and nothing else), or nothing
/// where the bytes end before the offset size; else the count, the offset
/// size, the size (the count field alone for no objects, else up to the
/// last offset, where it can be read) and each object's start and length.
pub open spec fn cff_index_read(data: Seq<u8>, is_cff2: bool) -> Option<(u32, u8, Option<usize>, Seq<(Option<usize>, Option<usize>)>)> {
    let cl = count_len(is_cff2);
    if data.len() == cl && raw_count(data, is_cff2) == 0 {
        Some((0, 0, Some(0), Seq::empty()))
    } else if data.len() < cl + 1 {
        None
    } else {
        let count = raw_count(data, is_cff2);
        let o = data[cl];
        let size = if count == 0 {
            Some(cl as usize)
        } else {
            match index_offset(data, is_cff2, count) {
                Some(v) => Some((index_data_start(is_cff2, count, o as int) + v) as usize),
                None => None,
            }
        };
        Some((
            count as u32,
            o,
            size,
            Seq::new(count as nat, |i: int| (index_offset(data, is_cff2, i), index_object_len(data, is_cff2, i))),
        ))
    }
}

/// What the source of read-fonts shows of a read INDEX: one entry per
/// object; an object that can be read has a start, and it lies within the
/// bytes after the offset array; the size stays below 2^41; and where the
/// bytes go past the count field, count and offset size are the bytes there.
pub open spec fn index_read_facts(data: Seq<u8>, is_cff2: bool, r: (u32, u8, Option<usize>, Seq<(Option<usize>, Option<usize>)>)) -> bool {
    &&& r.3.len() == r.0
    &&& forall|i: int| 0 <= i < r.3.len() && (#[trigger] r.3[i]).1 is Some ==> r.3[i].0 is Some
        && index_data_start(is_cff2, r.0 as int, r.1 as int) + r.3[i].0->Some_0 + r.3[i].1->Some_0 <= data.len()
    &&& r.2 matches Some(v) ==> v < 0x200_0000_0000
    &&& data.len() > count_len(is_cff2) ==> r.1 == data[count_len(is_cff2)]
        && r.0 == (if is_cff2 { u32_at(data, 0) } else { u16_at(data, 0) })
}

/// Reads an INDEX with read-fonts (`Index::new`, then `count`, `off_size`,
/// `size_in_bytes`, and `get_offset` and `get` for each object); the
/// contract states the result as `cff_index_read`.
#[verifier::external_body]
fn read_cff_index_raw(data: &[u8], is_cff2: bool) -> (r: Option<CffIndexRead>)
    ensures
        opt_index_read_view(r) == cff_index_read(data@, is_cff2),
{
    let ix = read_fonts::ps::cff::index::Index::new(data, is_cff2).ok()?;
    let mut objects = Vec::new();
    for i in 0..ix.count() as usize {
        objects.push((ix.get_offset(i), ix.get(i).map(|b| b.len())));
    }
    Some(CffIndexRead { count: ix.count(), off_size: ix.off_size(), size: ix.size_in_bytes(), objects })
}

proof fn lemma_offset_value_bound(b: Seq<u8>, pos: int, n: nat)
    requires
        n <= 4,
    ensures
        0 <= offset_value(b, pos, n) < 0x1_0000_0000,
    decreases n,
{
    if n > 0 {
        lemma_offset_value_bound(b, pos, (n - 1) as nat);
    }
}

/// A read INDEX has one entry per object; an object that can be read has a
/// start, and it lies within the bytes after the offset array; the size
/// stays below 2^41; and where the bytes go past the count field, count and
/// offset size are the bytes there.
proof fn lemma_index_read_facts(data: Seq<u8>, is_cff2: bool)
    ensures
        cff_index_read(data, is_cff2) matches Some(r) ==> index_read_facts(data, is_cff2, r),
{
    let cl = count_len(is_cff2);
    if cff_index_read(data, is_cff2) is Some && !(data.len() == cl && raw_count(data, is_cff2) == 0) {
        let r = cff_index_read(data, is_cff2)->Some_0;
        let count = raw_count(data, is_cff2);
        let o = data[cl] as int;
        assert(0 <= count < 0x1_0000_0000) by {
            if is_cff2 { assert(u32_at(data, 0) < 0x1_0000_0000); }
        }
        assert forall|i: int| 0 <= i < r.3.len() && (#[trigger] r.3[i]).1 is Some implies r.3[i].0 is Some
            && index_data_start(is_cff2, r.0 as int, r.1 as int) + r.3[i].0->Some_0 + r.3[i].1->Some_0 <= data.len() by {
            assert(r.3[i] == (index_offset(data, is_cff2, i), index_object_len(data, is_cff2, i)));
        }
        if count != 0 {
            match index_offset(data, is_cff2, count) {
                Some(v) => {
                    lemma_offset_value_bound(data, cl + 1 + count * o, o as nat);
                    assert((count + 1) * o <= 0x1_0000_0000 * 4) by (nonlinear_arith)
                        requires
                            0 <= count < 0x1_0000_0000,
                            1 <= o <= 4,
                    ;
                },
                None => {},
            }
        }
    }
}

/// Reads an INDEX (through read-fonts) and gives what the callers use of
/// it.
pub(crate) fn read_cff_index(data: &[u8], is_cff2: bool) -> (r: Option<CffIndexRead>)
    ensures
        opt_index_read_view(r) == cff_index_read(data@, is_cff2),
        r matches Some(ix) ==> index_read_facts(data@, is_cff2, index_read_view(ix)),
{
    proof {
        lemma_index_read_facts(data@, is_cff2);
    }
    read_cff_index_raw(data, is_cff2)
}

/// The text shown for a charstring or subroutine: its length in bytes.
pub open spec fn bytes_label(len: int) -> Seq<char> {
    "["@ + crate::text::dec(len as nat, 1) + " bytes]"@
}

/// The described objects of an INDEX whose object data starts at `base`:
/// one per object that can be read, in order.
pub open spec fn bytecode_items(objs: Seq<(Option<usize>, Option<usize>)>, base: int) -> Seq<JsonV>
    decreases objs.len(),
{
    if objs.len() == 0 {
        Seq::empty()
    } else {
        let rest = bytecode_items(objs.drop_last(), base);
        match objs.last() {
            (Some(s), Some(l)) => rest.push(sfield("Bytecode"@, JsonV::Str(bytes_label(l as int)), base + s, l as int)),
            _ => rest,
        }
    }
}

/// An INDEX of bytecode objects at `offset` of a CFF or CFF2 table (read as
/// CFF2 where `is_cff2`; its fields described as CFF2 where `fields_cff2`):
/// its described fields, its size and its count; `None` past the table or
/// where the INDEX cannot be read.
pub open spec fn spec_bytecode_index(t: Seq<u8>, offset: int, is_cff2: bool, fields_cff2: bool) -> Option<(JsonV, int, int)> {
    if offset > t.len() {
        None
    } else {
        match cff_index_read(t.subrange(offset, t.len() as int), is_cff2) {
            None => None,
            Some(ix) => {
                let size: int = match ix.2 { Some(v) => v as int, None => 0 };
                let base = offset + index_data_start(is_cff2, ix.0 as int, ix.1 as int);
                Some((
                    spec_parse_index(t, offset, size, JsonV::Arr(bytecode_items(ix.3, base)), "Bytecode"@, fields_cff2),
                    size,
                    ix.0 as int,
                ))
            },
        }
    }
}

/// The charstrings INDEX at `offset` of a CFF or CFF2 table: its described
/// fields, its size and its count; `None` past the table or where the INDEX
/// cannot be read.
pub open spec fn spec_parse_charstrings(t: Seq<u8>, offset: int, is_cff2: bool) -> Option<(JsonV, int, int)> {
    spec_bytecode_index(t, offset, is_cff2, is_cff2)
}

pub open spec fn opt_triple_view(r: Option<(Json, usize, usize)>) -> Option<(JsonV, int, int)> {
    match r {
        Some((j, a, b)) => Some((j.jv(), a as int, b as int)),
        None => None,
    }
}

pub(crate) fn bytes_label_string(len: usize) -> (r: String)
    ensures
        r@ == bytes_label(len as int),
{
    let mut s = text("[");
    let d = dec_string(len as u64, 1);
    s.append(d.as_str());
    s.append(" bytes]");
    s
}

/// Describes the charstrings INDEX at `offset` of a CFF or CFF2 table.
pub fn parse_charstrings(offset: usize, cff_table_bytes: &[u8], is_cff2: bool) -> (r: Option<(Json, usize, usize)>)
    requires
        small_len(cff_table_bytes@.len() as int),
    ensures
        opt_triple_view(r) == spec_parse_charstrings(cff_table_bytes@, offset as int, is_cff2),
{
    bytecode_index(offset, cff_table_bytes, is_cff2, is_cff2)
}

/// Describes an INDEX of bytecode objects at `offset` of a CFF or CFF2 table.
pub fn parse_bytecode_index(offset: usize, cff_table_bytes: &[u8], is_cff2: bool, fields_cff2: bool) -> (r: Option<(Json, usize, usize)>)
    requires
        small_len(cff_table_bytes@.len() as int),
    ensures
        opt_triple_view(r) == spec_bytecode_index(cff_table_bytes@, offset as int, is_cff2, fields_cff2),
{
    bytecode_index(offset, cff_table_bytes, is_cff2, fields_cff2)
}

fn bytecode_index(offset: usize, cff_table_bytes: &[u8], is_cff2: bool, fields_cff2: bool) -> (r: Option<(Json, usize, usize)>)
    requires
        small_len(cff_table_bytes@.len() as int),
    ensures
        opt_triple_view(r) == spec_bytecode_index(cff_table_bytes@, offset as int, is_cff2, fields_cff2),
{
    let t = cff_table_bytes;
    if offset > t.len() {
        return None;
    }
    let sub = slice_subrange(t, offset, t.len());
    let ix = match read_cff_index(sub, is_cff2) {
        Some(ix) => ix,
        None => return None,
    };
    let ghost ixv = index_read_view(ix);
    let size: usize = match ix.size { Some(v) => v, None => 0 };
    let cl: usize = if is_cff2 { 4 } else { 2 };
    assert((ix.count as int + 1) * (ix.off_size as int) <= 0x1_0000_0000 * 255) by (nonlinear_arith)
        requires
            ix.count as int + 1 <= 0x1_0000_0000,
    ;
    let data_start: u64 = cl as u64 + 1 + (ix.count as u64 + 1) * (ix.off_size as u64);
    let ghost base = offset + index_data_start(is_cff2, ix.count as int, ix.off_size as int);
    let mut list = new_arr();
    let mut i: usize = 0;
    let n = ix.objects.len();
    while i < n
        invariant
            n == ix.objects@.len(),
            i <= n,
            index_read_facts(sub@, is_cff2, index_read_view(ix)),
            sub@.len() + offset == t@.len(),
            small_len(t@.len() as int),
            data_start == index_data_start(is_cff2, ix.count as int, ix.off_size as int),
            base == offset + data_start,
            jv_seq(list@) == bytecode_items(ix.objects@.take(i as int), base),
        decreases n - i,
    {
        assert(ix.objects@.take(i + 1).drop_last() =~= ix.objects@.take(i as int));
        let o = ix.objects[i];
        match o {
            (Some(s), Some(l)) => {
                assert(ix.objects@[i as int].1 is Some);
                let at = offset + (data_start as usize) + s;
                push_item(&mut list, parsed_field("Bytecode", Json::Str(bytes_label_string(l)), at, l));
            },
            _ => {},
        }
        i = i + 1;
    }
    assert(ix.objects@.take(n as int) =~= ix.objects@);
    let index_json = parse_index(t, offset, size, jarr(list), "Bytecode", fields_cff2);
    Some((index_json, size, ix.count as usize))
}

} // verus!

verus! {

/// The text of a nibble of a real-number operand: a digit, the decimal
/// point, an exponent, or the minus sign (13 is reserved and shows nothing).
pub open spec fn nibble_text(n: int) -> Seq<char> {
    if n == 0 { "0"@ } else if n == 1 { "1"@ } else if n == 2 { "2"@ } else if n == 3 { "3"@ }
    else if n == 4 { "4"@ } else if n == 5 { "5"@ } else if n == 6 { "6"@ } else if n == 7 { "7"@ }
    else if n == 8 { "8"@ } else if n == 9 { "9"@ } else if n == 10 { "."@ } else if n == 11 { "E"@ }
    else if n == 12 { "E-"@ } else if n == 14 { "-"@ } else { ""@ }
}

fn nibble_str(n: u8) -> (r: &'static str)
    ensures
        r@ == nibble_text(n as int),
{
    if n == 0 { "0" } else if n == 1 { "1" } else if n == 2 { "2" } else if n == 3 { "3" }
    else if n == 4 { "4" } else if n == 5 { "5" } else if n == 6 { "6" } else if n == 7 { "7" }
    else if n == 8 { "8" } else if n == 9 { "9" } else if n == 10 { "." } else if n == 11 { "E" }
    else if n == 12 { "E-" } else if n == 14 { "-" } else { "" }
}

/// The decimal text that the nibbles of a real-number operand spell, read
/// from byte `c` up to the end nibble or the end of the data.
pub open spec fn real_chars(d: Seq<u8>, c: int) -> Seq<char>
    decreases d.len() - c,
{
    if c < 0 || c >= d.len() {
        Seq::empty()
    } else {
        let hi = d[c] as int / 16;
        let lo = d[c] as int % 16;
        if hi == 15 {
            Seq::empty()
        } else if lo == 15 {
            nibble_text(hi)
        } else {
            nibble_text(hi) + nibble_text(lo) + real_chars(d, c + 1)
        }
    }
}

fn real_string(d: &[u8], c: usize) -> (r: String)
    requires
        c <= d@.len(),
    ensures
        r@ == real_chars(d@, c as int),
    decreases d@.len() - c,
{
    if c >= d.len() {
        return String::new();
    }
    let hi: u8 = d[c] / 16;
    let lo: u8 = d[c] % 16;
    if hi == 15 {
        String::new()
    } else if lo == 15 {
        text(nibble_str(hi))
    } else {
        let mut s = text(nibble_str(hi));
        s.append(nibble_str(lo));
        let rest = real_string(d, c + 1);
        s.append(rest.as_str());
        s
    }
}

/// The value of the operand at `pos`, as it stands in the data: an integer,
/// or a real number by its decimal text; `Null` where the data ends inside
/// the operand or the byte is reserved.
pub open spec fn operand_value(d: Seq<u8>, pos: int) -> JsonV {
    let b0 = d[pos] as int;
    if b0 == 28 {
        if pos + 2 < d.len() { JsonV::Num(crate::reader::i16_at(d, pos + 1)) } else { JsonV::Null }
    } else if b0 == 29 {
        if pos + 4 < d.len() { JsonV::Num(crate::reader::i32_at(d, pos + 1)) } else { JsonV::Null }
    } else if b0 == 30 {
        JsonV::Str(real_chars(d, pos + 1))
    } else if 32 <= b0 <= 246 {
        JsonV::Num(b0 - 139)
    } else if 247 <= b0 <= 250 {
        if pos + 1 < d.len() { JsonV::Num((b0 - 247) * 256 + d[pos + 1] + 108) } else { JsonV::Null }
    } else if 251 <= b0 <= 254 {
        if pos + 1 < d.len() { JsonV::Num(-(b0 - 251) * 256 - d[pos + 1] - 108) } else { JsonV::Null }
    } else {
        JsonV::Null
    }
}

/// The integer that the operand at `pos` holds, where it holds one.
pub open spec fn operand_int(d: Seq<u8>, pos: int) -> Option<int> {
    match operand_value(d, pos) {
        JsonV::Num(v) => if d[pos] != 30 { Some(v) } else { None },
        _ => None,
    }
}

/// An integer operand is the number that the DICT operand encoding assigns
/// to its bytes: a first byte `b0` in 32..=246 stands for `b0 - 139`
/// (-107..=107); in 247..=250 with the next byte `b1` for
/// `(b0 - 247) * 256 + b1 + 108` (108..=1131); in 251..=254 for
/// `-(b0 - 251) * 256 - b1 - 108` (-1131..=-108); 28 is followed by a
/// big-endian signed 16-bit number and 29 by a signed 32-bit one.
pub proof fn integer_operands_follow_the_encoding(d: Seq<u8>, pos: int)
    requires
        0 <= pos < d.len(),
    ensures
        ({
            let b0 = d[pos] as int;
            let v = operand_value(d, pos);
            &&& (32 <= b0 <= 246 ==> v == JsonV::Num(b0 - 139) && -107 <= b0 - 139 <= 107)
            &&& (247 <= b0 <= 250 && pos + 1 < d.len() ==> {
                let n = (b0 - 247) * 256 + d[pos + 1] + 108;
                v == JsonV::Num(n) && 108 <= n <= 1131
            })
            &&& (251 <= b0 <= 254 && pos + 1 < d.len() ==> {
                let n = -(b0 - 251) * 256 - d[pos + 1] - 108;
                v == JsonV::Num(n) && -1131 <= n <= -108
            })
            &&& (b0 == 28 && pos + 2 < d.len() ==> v == JsonV::Num(crate::reader::i16_at(d, pos + 1)))
            &&& (b0 == 29 && pos + 4 < d.len() ==> v == JsonV::Num(crate::reader::i32_at(d, pos + 1)))
            &&& (b0 != 30 && v is Num ==> operand_int(d, pos) == Some(v->Num_0))
        }),
{
}

/// The two-byte negative operands mirror the two-byte positive ones: with
/// the same second byte, a first byte four above one in 247..=250 gives
/// the opposite number, and that number is negative.
pub proof fn negative_operands_mirror_positive(d: Seq<u8>, e: Seq<u8>, pos: int)
    requires
        0 <= pos,
        pos + 1 < d.len(),
        pos + 1 < e.len(),
        247 <= d[pos] <= 250,
        e[pos] == d[pos] + 4,
        e[pos + 1] == d[pos + 1],
    ensures
        operand_value(d, pos) is Num,
        operand_value(e, pos) is Num,
        operand_value(e, pos)->Num_0 == -operand_value(d, pos)->Num_0,
        operand_value(e, pos)->Num_0 <= -108,
        operand_int(e, pos) == Some(-operand_value(d, pos)->Num_0),
{
}

fn operand_json(d: &[u8], pos: usize) -> (r: (Json, Option<i64>))
    requires
        pos < d@.len(),
        small_len(d@.len() as int),
    ensures
        r.0.jv() == operand_value(d@, pos as int),
        match r.1 {
            Some(v) => operand_int(d@, pos as int) == Some(v as int),
            None => operand_int(d@, pos as int) is None,
        },
{
    let b0 = d[pos];
    if b0 == 28 {
        if pos + 2 < d.len() {
            let v = crate::reader::be_i16(d, pos + 1) as i64;
            (Json::Int(v), Some(v))
        } else {
            (Json::Null, None)
        }
    } else if b0 == 29 {
        if pos + 4 < d.len() {
            let v = crate::reader::be_i32(d, pos + 1) as i64;
            (Json::Int(v), Some(v))
        } else {
            (Json::Null, None)
        }
    } else if b0 == 30 {
        (Json::Str(real_string(d, pos + 1)), None)
    } else if 32 <= b0 && b0 <= 246 {
        let v = b0 as i64 - 139;
        (Json::Int(v), Some(v))
    } else if 247 <= b0 && b0 <= 250 {
        if pos + 1 < d.len() {
            let v = (b0 as i64 - 247) * 256 + d[pos + 1] as i64 + 108;
            (Json::Int(v), Some(v))
        } else {
            (Json::Null, None)
        }
    } else if 251 <= b0 && b0 <= 254 {
        if pos + 1 < d.len() {
            let v = -(b0 as i64 - 251) * 256 - d[pos + 1] as i64 - 108;
            (Json::Int(v), Some(v))
        } else {
            (Json::Null, None)
        }
    } else {
        (Json::Null, None)
    }
}

/// The key under which a DICT entry is shown, by its operator (`b1` is the
/// second byte of a two-byte operator, or -1); `None` for operators that
/// CFF and CFF2 DICTs do not define.
pub open spec fn op_key(b0: int, b1: int) -> Option<Seq<char>> {
    if b0 == 12 {
        if b1 == 0 { Some("Copyright"@) } else if b1 == 1 { Some("IsFixedPitch"@) }
        else if b1 == 2 { Some("ItalicAngle"@) } else if b1 == 3 { Some("UnderlinePosition"@) }
        else if b1 == 4 { Some("UnderlineThickness"@) } else if b1 == 5 { Some("PaintType"@) }
        else if b1 == 6 { Some("CharstringType"@) } else if b1 == 7 { Some("FontMatrix"@) }
        else if b1 == 8 { Some("StrokeWidth"@) } else if b1 == 9 { Some("BlueScale"@) }
        else if b1 == 10 { Some("BlueShift"@) } else if b1 == 11 { Some("BlueFuzz"@) }
        else if b1 == 12 { Some("StemSnapH"@) } else if b1 == 13 { Some("StemSnapV"@) }
        else if b1 == 14 { Some("ForceBold"@) } else if b1 == 17 { Some("LanguageGroup"@) }
        else if b1 == 18 { Some("ExpansionFactor"@) } else if b1 == 19 { Some("InitialRandomSeed"@) }
        else if b1 == 20 { Some("SyntheticBase"@) } else if b1 == 21 { Some("PostScript"@) }
        else if b1 == 22 { Some("BaseFontName"@) } else if b1 == 23 { Some("BaseFontBlend"@) }
        else if b1 == 30 { Some("Ros"@) } else if b1 == 31 { Some("CidFontVersion"@) }
        else if b1 == 32 { Some("CidFontRevision"@) } else if b1 == 33 { Some("CidFontType"@) }
        else if b1 == 34 { Some("CidCount"@) } else if b1 == 35 { Some("UidBase"@) }
        else if b1 == 36 { Some("FdArrayOffset"@) } else if b1 == 37 { Some("FdSelectOffset"@) }
        else if b1 == 38 { Some("FontName"@) } else { None }
    } else if b0 == 0 { Some("Version"@) } else if b0 == 1 { Some("Notice"@) }
    else if b0 == 2 { Some("FullName"@) } else if b0 == 3 { Some("FamilyName"@) }
    else if b0 == 4 { Some("Weight"@) } else if b0 == 5 { Some("FontBbox"@) }
    else if b0 == 6 { Some("BlueValues"@) } else if b0 == 7 { Some("OtherBlues"@) }
    else if b0 == 8 { Some("FamilyBlues"@) } else if b0 == 9 { Some("FamilyOtherBlues"@) }
    else if b0 == 10 { Some("StdHw"@) } else if b0 == 11 { Some("StdVw"@) }
    else if b0 == 13 { Some("UniqueId"@) } else if b0 == 14 { Some("Xuid"@) }
    else if b0 == 15 { Some("CharsetOffset"@) } else if b0 == 16 { Some("EncodingOffset"@) }
    else if b0 == 17 { Some("CharstringsOffset"@) } else if b0 == 18 { Some("PrivateDictOffset"@) }
    else if b0 == 19 { Some("LocalSubrsOffset"@) } else if b0 == 20 { Some("DefaultWidthX"@) }
    else if b0 == 21 { Some("NominalWidthX"@) } else if b0 == 22 { Some("VariationStoreIndex"@) }
    else if b0 == 24 { Some("VariationStoreOffset"@) } else { None }
}

fn op_key_str(b0: u8, b1: i32) -> (r: Option<&'static str>)
    ensures
        opt_text(r) == op_key(b0 as int, b1 as int),
{
    if b0 == 12 {
        if b1 == 0 { Some("Copyright") } else if b1 == 1 { Some("IsFixedPitch") }
        else if b1 == 2 { Some("ItalicAngle") } else if b1 == 3 { Some("UnderlinePosition") }
        else if b1 == 4 { Some("UnderlineThickness") } else if b1 == 5 { Some("PaintType") }
        else if b1 == 6 { Some("CharstringType") } else if b1 == 7 { Some("FontMatrix") }
        else if b1 == 8 { Some("StrokeWidth") } else if b1 == 9 { Some("BlueScale") }
        else if b1 == 10 { Some("BlueShift") } else if b1 == 11 { Some("BlueFuzz") }
        else if b1 == 12 { Some("StemSnapH") } else if b1 == 13 { Some("StemSnapV") }
        else if b1 == 14 { Some("ForceBold") } else if b1 == 17 { Some("LanguageGroup") }
        else if b1 == 18 { Some("ExpansionFactor") } else if b1 == 19 { Some("InitialRandomSeed") }
        else if b1 == 20 { Some("SyntheticBase") } else if b1 == 21 { Some("PostScript") }
        else if b1 == 22 { Some("BaseFontName") } else if b1 == 23 { Some("BaseFontBlend") }
        else if b1 == 30 { Some("Ros") } else if b1 == 31 { Some("CidFontVersion") }
        else if b1 == 32 { Some("CidFontRevision") } else if b1 == 33 { Some("CidFontType") }
        else if b1 == 34 { Some("CidCount") } else if b1 == 35 { Some("UidBase") }
        else if b1 == 36 { Some("FdArrayOffset") } else if b1 == 37 { Some("FdSelectOffset") }
        else if b1 == 38 { Some("FontName") } else { None }
    } else if b0 == 0 { Some("Version") } else if b0 == 1 { Some("Notice") }
    else if b0 == 2 { Some("FullName") } else if b0 == 3 { Some("FamilyName") }
    else if b0 == 4 { Some("Weight") } else if b0 == 5 { Some("FontBbox") }
    else if b0 == 6 { Some("BlueValues") } else if b0 == 7 { Some("OtherBlues") }
    else if b0 == 8 { Some("FamilyBlues") } else if b0 == 9 { Some("FamilyOtherBlues") }
    else if b0 == 10 { Some("StdHw") } else if b0 == 11 { Some("StdVw") }
    else if b0 == 13 { Some("UniqueId") } else if b0 == 14 { Some("Xuid") }
    else if b0 == 15 { Some("CharsetOffset") } else if b0 == 16 { Some("EncodingOffset") }
    else if b0 == 17 { Some("CharstringsOffset") } else if b0 == 18 { Some("PrivateDictOffset") }
    else if b0 == 19 { Some("LocalSubrsOffset") } else if b0 == 20 { Some("DefaultWidthX") }
    else if b0 == 21 { Some("NominalWidthX") } else if b0 == 22 { Some("VariationStoreIndex") }
    else if b0 == 24 { Some("VariationStoreOffset") } else { None }
}

/// The key a CFF2 DICT shows for an entry that CFF shows under key `k`.
pub open spec fn cff2_key(k: Seq<char>) -> Seq<char> {
    if k == "CharstringsOffset"@ { "CharStringIndexOffset"@ }
    else if k == "FdArrayOffset"@ { "FontDictIndexOffset"@ }
    else if k == "FdSelectOffset"@ { "FontDictSelectOffset"@ }
    else if k == "LocalSubrsOffset"@ { "LocalSubrIndexOffset"@ }
    else if k == "CharsetOffset"@ { "Charset"@ }
    else if k == "EncodingOffset"@ { "Encoding"@ }
    else { k }
}

pub open spec fn shown_key(k: Seq<char>, is_cff2: bool) -> Seq<char> {
    if is_cff2 { cff2_key(k) } else { k }
}

fn shown_key_str(k: &'static str, is_cff2: bool) -> (r: &'static str)
    ensures
        r@ == shown_key(k@, is_cff2),
{
    if !is_cff2 {
        return k;
    }
    let t = text(k);
    if t == text("CharstringsOffset") { "CharStringIndexOffset" }
    else if t == text("FdArrayOffset") { "FontDictIndexOffset" }
    else if t == text("FdSelectOffset") { "FontDictSelectOffset" }
    else if t == text("LocalSubrsOffset") { "LocalSubrIndexOffset" }
    else if t == text("CharsetOffset") { "Charset" }
    else if t == text("EncodingOffset") { "Encoding" }
    else { k }
}

/// The type name shown for an entry with key `k`.
#[verifier::opaque]
pub open spec fn key_type(k: Seq<char>) -> Seq<char> {
    if k == "Version"@ || k == "Notice"@ || k == "FullName"@ || k == "FamilyName"@ || k == "Weight"@
        || k == "Copyright"@ || k == "PostScript"@ || k == "BaseFontName"@ || k == "FontName"@ {
        "SID"@
    } else if k == "Ros"@ {
        "SID SID number"@
    } else if k == "FontBbox"@ || k == "FontMatrix"@ {
        "number[]"@
    } else if k == "BlueValues"@ || k == "OtherBlues"@ || k == "FamilyBlues"@ || k == "FamilyOtherBlues"@
        || k == "StemSnapH"@ || k == "StemSnapV"@ || k == "BaseFontBlend"@ {
        "delta[]"@
    } else if k == "PrivateDictOffset"@ {
        "number number"@
    } else {
        "number"@
    }
}

fn key_type_str(k: &str) -> (r: &'static str)
    ensures
        r@ == key_type(k@),
{
    proof {
        reveal(key_type);
    }
    let t = text(k);
    if t == text("Version") || t == text("Notice") || t == text("FullName") || t == text("FamilyName")
        || t == text("Weight") || t == text("Copyright") || t == text("PostScript")
        || t == text("BaseFontName") || t == text("FontName") {
        "SID"
    } else if t == text("Ros") {
        "SID SID number"
    } else if t == text("FontBbox") || t == text("FontMatrix") {
        "number[]"
    } else if t == text("BlueValues") || t == text("OtherBlues") || t == text("FamilyBlues")
        || t == text("FamilyOtherBlues") || t == text("StemSnapH") || t == text("StemSnapV")
        || t == text("BaseFontBlend") {
        "delta[]"
    } else if t == text("PrivateDictOffset") {
        "number number"
    } else {
        "number"
    }
}

} // verus!

verus! {

/// The offsets that a DICT's entries point to: the FDArray, FDSelect,
/// charset, CharStrings, local Subrs and variation store, each by its last
/// entry, and the range of the Private DICT.
#[derive(Clone, Copy)]
pub struct DictOffsets {
    pub fd_array: Option<usize>,
    pub fd_select: Option<usize>,
    pub charset: Option<usize>,
    pub charstrings: Option<usize>,
    pub local_subrs: Option<usize>,
    pub vstore: Option<usize>,
    pub private_range: Option<(usize, usize)>,
}

pub open spec fn no_offsets() -> DictOffsets {
    DictOffsets {
        fd_array: None,
        fd_select: None,
        charset: None,
        charstrings: None,
        local_subrs: None,
        vstore: None,
        private_range: None,
    }
}

/// An operand's integer as an offset, where it is one.
pub open spec fn as_offset(v: Option<int>) -> Option<usize> {
    match v {
        Some(x) => if 0 <= x <= 0x7FFF_FFFF { Some(x as usize) } else { None },
        None => None,
    }
}

/// The operands of the entry at `s` (`l` bytes) of a DICT, within the
/// entry's own bytes.
pub open spec fn entry_ops(d: Seq<u8>, s: int, l: int) -> Seq<(int, int)> {
    operands_from(d.subrange(s, s + l), 0)
}

/// The operator bytes of an entry: the first, and the second of a two-byte
/// operator (or -1).
pub open spec fn entry_op(d: Seq<u8>, s: int, l: int) -> (int, int) {
    let sub = d.subrange(s, s + l);
    let e = ops_end(entry_ops(d, s, l), 0);
    let b0 = sub[e] as int;
    (b0, if b0 == 12 && e + 1 < l { sub[e + 1] as int } else { -1 })
}

/// The value of an entry: its operand where it has exactly one, else each
/// operand as a described field.
pub open spec fn entry_value(sub: Seq<u8>, ops: Seq<(int, int)>, at: int, ty: Seq<char>) -> JsonV {
    if ops.len() == 1 {
        operand_value(sub, ops[0].0)
    } else {
        JsonV::Arr(Seq::new(ops.len(), |i: int| sfield(ty, operand_value(sub, ops[i].0), at + ops[i].0, ops[i].1)))
    }
}

pub open spec fn operand_type(k: Seq<char>) -> Seq<char> {
    if key_type(k) == "delta[]"@ { "delta"@ } else { "number"@ }
}

/// The bytes of standard string `sid` (below 391), as read-fonts holds them.
pub uninterp spec fn cff_standard_string(sid: int) -> Seq<u8>;

/// The bytes of standard string `sid` (`Sid::resolve_standard`): there is
/// one exactly for the 391 standard identifiers; its bytes are named
/// `cff_standard_string`.
#[verifier::external_body]
fn standard_string(sid: u16) -> (r: Option<Vec<u8>>)
    ensures
        r is Some <==> sid < 391,
        r matches Some(v) ==> v@ == cff_standard_string(sid as int),
{
    read_fonts::ps::Sid::new(sid).resolve_standard().ok().map(|b| b.to_vec())
}

/// What `String::from_utf8_lossy` makes of some bytes.
pub uninterp spec fn utf8_lossy_text(b: Seq<u8>) -> Seq<char>;

/// The text of some bytes with each invalid UTF-8 sequence replaced
/// (`String::from_utf8_lossy`); for valid UTF-8 it is the decoded text.
/// Beyond that the result is named `utf8_lossy_text`.
#[verifier::external_body]
pub(crate) fn lossy_string(b: &[u8]) -> (r: String)
    ensures
        r@ == utf8_lossy_text(b@),
        vstd::utf8::valid_utf8(b@) ==> r@ == vstd::utf8::decode_utf8(b@),
{
    String::from_utf8_lossy(b).to_string()
}

/// The bytes of string `sid` of a CFF table whose String INDEX is at `p`:
/// a standard string below 391, else object `sid - 391` of the String INDEX
/// where it can be read.
pub open spec fn sid_bytes(t: Seq<u8>, p: int, sid: int) -> Option<Seq<u8>> {
    if sid < 391 {
        Some(cff_standard_string(sid))
    } else if p > t.len() {
        None
    } else {
        match cff_index_read(t.subrange(p, t.len() as int), false) {
            None => None,
            Some(ix) => {
                let k = sid - 391;
                if k < ix.3.len() {
                    match ix.3[k] {
                        (Some(st), Some(l)) => {
                            let at = p + index_data_start(false, ix.0 as int, ix.1 as int) + st;
                            Some(t.subrange(at, at + l))
                        },
                        _ => None,
                    }
                } else {
                    None
                }
            },
        }
    }
}

/// A string identifier as a CFF DICT shows it: the number, and the string
/// in brackets where there is one.
#[verifier::opaque]
pub open spec fn sid_text(t: Seq<u8>, p: int, sid: int) -> Seq<char> {
    match sid_bytes(t, p, sid) {
        Some(b) => crate::text::dec(sid as nat, 1) + " ("@ + utf8_lossy_text(b) + ")"@,
        None => crate::text::dec(sid as nat, 1),
    }
}

fn sid_lookup(t: &[u8], p: usize, sid: u16) -> (r: Option<Vec<u8>>)
    requires
        small_len(t@.len() as int),
    ensures
        match r {
            Some(v) => sid_bytes(t@, p as int, sid as int) == Some(v@),
            None => sid_bytes(t@, p as int, sid as int) is None,
        },
{
    if sid < 391 {
        standard_string(sid)
    } else if p > t.len() {
        None
    } else {
        let sub = vstd::slice::slice_subrange(t, p, t.len());
        match read_cff_index(sub, false) {
            None => None,
            Some(ix) => {
                let k = (sid - 391) as usize;
                if k < ix.objects.len() {
                    match ix.objects[k] {
                        (Some(st), Some(l)) => {
                            assert(ix.objects@[k as int].1 is Some);
                            assert((ix.count as int + 1) * (ix.off_size as int) <= 0x1_0000_0000 * 255) by (nonlinear_arith)
                                requires
                                    ix.count as int + 1 <= 0x1_0000_0000,
                            ;
                            let ds: u64 = 3 + (ix.count as u64 + 1) * (ix.off_size as u64);
                            let at = p + (ds as usize) + st;
                            Some(vstd::slice::slice_to_vec(vstd::slice::slice_subrange(t, at, at + l)))
                        },
                        _ => None,
                    }
                } else {
                    None
                }
            },
        }
    }
}

fn sid_string(t: &[u8], p: usize, sid: u16) -> (r: String)
    requires
        small_len(t@.len() as int),
    ensures
        r@ == sid_text(t@, p as int, sid as int),
{
    proof {
        reveal(sid_text);
    }
    let b: Option<Vec<u8>> = sid_lookup(t, p, sid);
    let mut s = dec_string(sid as u64, 1);
    match b {
        Some(bytes) => {
            s.append(" (");
            let l = lossy_string(bytes.as_slice());
            s.append(l.as_str());
            s.append(")");
        },
        None => {},
    }
    s
}

/// A registry or ordering of a ROS entry: the number, and its string in
/// brackets where there is one that is not empty.
#[verifier::opaque]
pub open spec fn ros_part(t: Seq<u8>, p: int, sid: int) -> Seq<char> {
    match sid_bytes(t, p, sid) {
        Some(b) => if utf8_lossy_text(b).len() > 0 {
            crate::text::dec(sid as nat, 1) + " ("@ + utf8_lossy_text(b) + ")"@
        } else {
            crate::text::dec(sid as nat, 1)
        },
        None => crate::text::dec(sid as nat, 1),
    }
}

/// An operand as text: an integer in decimal, a real number by its digits.
#[verifier::opaque]
pub open spec fn operand_text(sub: Seq<u8>, pos: int) -> Seq<char> {
    match operand_value(sub, pos) {
        JsonV::Num(v) => crate::text::dec_signed(v),
        JsonV::Str(s) => s,
        _ => Seq::empty(),
    }
}

fn ros_part_string(t: &[u8], p: usize, sid: u16) -> (r: String)
    requires
        small_len(t@.len() as int),
    ensures
        r@ == ros_part(t@, p as int, sid as int),
{
    proof {
        reveal(ros_part);
    }
    let b: Option<Vec<u8>> = sid_lookup(t, p, sid);
    let mut s = dec_string(sid as u64, 1);
    match b {
        Some(bytes) => {
            let l = lossy_string(bytes.as_slice());
            if l.as_str().unicode_len() > 0 {
                s.append(" (");
                s.append(l.as_str());
                s.append(")");
            }
        },
        None => {},
    }
    s
}

fn operand_text_string(sub: &[u8], pos: usize) -> (r: String)
    requires
        pos < sub@.len(),
        small_len(sub@.len() as int),
    ensures
        r@ == operand_text(sub@, pos as int),
{
    proof {
        reveal(operand_text);
    }
    let (j, _) = operand_json(sub, pos);
    let ghost jv = j.jv();
    assert(jv == operand_value(sub@, pos as int));
    match j {
        Json::Int(v) => {
            assert(jv == JsonV::Num(v as int));
            crate::text::dec_signed_string(v)
        },
        Json::UInt(v) => {
            assert(jv == JsonV::Num(v as int));
            crate::text::dec_string(v, 1)
        },
        Json::Str(s) => {
            assert(jv == JsonV::Str(s@));
            s
        },
        _ => {
            assert(!(jv is Num) && !(jv is Str));
            String::new()
        },
    }
}

pub open spec fn ros_text(sub: Seq<u8>, ops: Seq<(int, int)>, t: Seq<u8>, p: int) -> Seq<char> {
    ros_part(t, p, operand_int(sub, ops[0].0)->Some_0 % 65536) + " "@
        + ros_part(t, p, operand_int(sub, ops[1].0)->Some_0 % 65536) + " "@
        + operand_text(sub, ops[2].0)
}

/// A string identifier from an integer operand: its low 16 bits.
fn sid_of(x: i64) -> (r: u16)
    ensures
        r as int == x as int % 65536,
{
    let v = x as u16;
    assert(v as int == x as int % 65536) by (bit_vector)
        requires
            v == x as u16,
    ;
    v
}

fn operand_int_at(sub: &[u8], pos: usize) -> (r: Option<i64>)
    requires
        pos < sub@.len(),
        small_len(sub@.len() as int),
    ensures
        match r {
            Some(v) => operand_int(sub@, pos as int) == Some(v as int),
            None => operand_int(sub@, pos as int) is None,
        },
{
    operand_json(sub, pos).1
}

/// The text of a ROS entry from its first three operands (at `p0`, `p1`
/// and `p2`), where the first two are integers.
fn ros_value(sub: &[u8], p0: usize, p1: usize, p2: usize, t: &[u8], p: usize) -> (r: Option<String>)
    requires
        small_len(sub@.len() as int),
        small_len(t@.len() as int),
        p0 < sub@.len(),
        p1 < sub@.len(),
        p2 < sub@.len(),
    ensures
        r is Some <==> (operand_int(sub@, p0 as int) is Some && operand_int(sub@, p1 as int) is Some),
        r matches Some(v) ==> v@ == ros_part(t@, p as int, operand_int(sub@, p0 as int)->Some_0 % 65536) + " "@
            + ros_part(t@, p as int, operand_int(sub@, p1 as int)->Some_0 % 65536) + " "@
            + operand_text(sub@, p2 as int),
{
    match (operand_int_at(sub, p0), operand_int_at(sub, p1)) {
        (Some(a), Some(b)) => {
            let mut s = ros_part_string(t, p, sid_of(a));
            s.append(" ");
            let o = ros_part_string(t, p, sid_of(b));
            s.append(o.as_str());
            s.append(" ");
            let sup = operand_text_string(sub, p2);
            s.append(sup.as_str());
            Some(s)
        },
        _ => None,
    }
}

/// Whether an entry's key names a string identifier.
pub open spec fn is_sid_key(k: Seq<char>) -> bool {
    key_type(k) == "SID"@
}

/// The value an entry shows: for a string identifier in a CFF table (whose
/// String INDEX is at `strs`), the identifier with its string, taken from
/// the last operand where that is an integer; otherwise its operands as
/// they stand.
pub open spec fn shown_value(d: Seq<u8>, base: int, s: int, l: int, k: Seq<char>, t: Seq<u8>, strs: Option<usize>) -> JsonV {
    value_of_operands(d.subrange(s, s + l), entry_ops(d, s, l), base + s, k, t, strs)
}

/// The value of an entry with key `k` and operands `ops` (within its bytes
/// `sub`, which stand at `at`).
pub open spec fn value_of_operands(sub: Seq<u8>, ops: Seq<(int, int)>, at: int, k: Seq<char>, t: Seq<u8>, strs: Option<usize>) -> JsonV {
    if k == "Ros"@ && strs is Some && ops.len() >= 3 && operand_int(sub, ops[0].0) is Some && operand_int(sub, ops[1].0) is Some {
        JsonV::Str(ros_text(sub, ops, t, strs->Some_0 as int))
    } else if k == "PrivateDictOffset"@ && ops.len() >= 2 && operand_int(sub, ops[0].0) is Some && operand_int(sub, ops[1].0) is Some {
        JsonV::Str(operand_text(sub, ops[0].0) + " "@ + operand_text(sub, ops[1].0))
    } else if is_sid_key(k) && strs is Some && ops.len() > 0 && operand_int(sub, ops.last().0) is Some {
        JsonV::Str(sid_text(t, strs->Some_0 as int, operand_int(sub, ops.last().0)->Some_0 % 65536))
    } else {
        entry_value(sub, ops, at, operand_type(k))
    }
}

fn value_json(sub: &[u8], ops: &Vec<(usize, usize)>, at: usize, k: &str, ty: &str, t: &[u8], strs: Option<usize>) -> (r: Json)
    requires
        small_len(sub@.len() as int),
        small_len(t@.len() as int),
        at + sub@.len() <= usize::MAX / 4,
        pairs_view(ops@) == operands_from(sub@, 0),
        ty@ == key_type(k@),
    ensures
        r.jv() == value_of_operands(sub@, operands_from(sub@, 0), at as int, k@, t@, strs),
{
    proof {
        lemma_operands_within(sub@, 0);
    }
    let oty = if text(ty) == text("delta[]") { "delta" } else { "number" };
    let n = ops.len();
    if text(k) == text("Ros") && n >= 3 {
        match strs {
            Some(p) => {
                assert(pairs_view(ops@)[0] == (ops@[0].0 as int, ops@[0].1 as int));
                assert(pairs_view(ops@)[1] == (ops@[1].0 as int, ops@[1].1 as int));
                assert(pairs_view(ops@)[2] == (ops@[2].0 as int, ops@[2].1 as int));
                match ros_value(sub, ops[0].0, ops[1].0, ops[2].0, t, p) {
                    Some(v) => return Json::Str(v),
                    None => {},
                }
            },
            None => {},
        }
    }
    if text(k) == text("PrivateDictOffset") && n >= 2 {
        assert(pairs_view(ops@)[0] == (ops@[0].0 as int, ops@[0].1 as int));
        assert(pairs_view(ops@)[1] == (ops@[1].0 as int, ops@[1].1 as int));
        if operand_int_at(sub, ops[0].0).is_some() && operand_int_at(sub, ops[1].0).is_some() {
            let mut s = operand_text_string(sub, ops[0].0);
            s.append(" ");
            let o = operand_text_string(sub, ops[1].0);
            s.append(o.as_str());
            return Json::Str(s);
        }
    }
    if text(ty) == text("SID") && n > 0 {
        match strs {
            Some(p) => {
                assert(pairs_view(ops@)[n - 1] == (ops@[n - 1].0 as int, ops@[n - 1].1 as int));
                match operand_int_at(sub, ops[n - 1].0) {
                    Some(x) => {
                        let sid = sid_of(x);
                        return Json::Str(sid_string(t, p, sid));
                    },
                    None => {},
                }
            },
            None => {},
        }
    }
    entry_value_json(sub, ops, at, oty)
}

/// The described entry at `s` (`l` bytes) of a DICT that starts at `base`
/// of its table, under its key; `None` for an operator that DICTs do not
/// define.
pub open spec fn dict_entry(d: Seq<u8>, base: int, s: int, l: int, is_cff2: bool, t: Seq<u8>, strs: Option<usize>) -> Option<(Seq<char>, JsonV)> {
    let (b0, b1) = entry_op(d, s, l);
    match op_key(b0, b1) {
        None => None,
        Some(k) => Some((
            shown_key(k, is_cff2),
            sfield(key_type(k), shown_value(d, base, s, l, k, t, strs), base + s, l),
        )),
    }
}

/// What an entry changes of the DICT's offsets.
pub open spec fn offsets_after(o: DictOffsets, d: Seq<u8>, s: int, l: int) -> DictOffsets {
    let (b0, b1) = entry_op(d, s, l);
    let sub = d.subrange(s, s + l);
    let ops = entry_ops(d, s, l);
    let last = if ops.len() > 0 { as_offset(operand_int(sub, ops.last().0)) } else { None };
    match op_key(b0, b1) {
        Some(k) => if k == "FdArrayOffset"@ && last is Some {
            DictOffsets { fd_array: last, ..o }
        } else if k == "FdSelectOffset"@ && last is Some {
            DictOffsets { fd_select: last, ..o }
        } else if k == "CharsetOffset"@ && last is Some {
            DictOffsets { charset: last, ..o }
        } else if k == "CharstringsOffset"@ && last is Some {
            DictOffsets { charstrings: last, ..o }
        } else if k == "LocalSubrsOffset"@ && last is Some {
            DictOffsets { local_subrs: last, ..o }
        } else if k == "VariationStoreOffset"@ && last is Some {
            DictOffsets { vstore: last, ..o }
        } else if k == "PrivateDictOffset"@ && ops.len() >= 2 {
            match (as_offset(operand_int(sub, ops[0].0)), as_offset(operand_int(sub, ops[1].0))) {
                (Some(len), Some(start)) => DictOffsets { private_range: Some((start, (start + len) as usize)), ..o },
                _ => o,
            }
        } else {
            o
        },
        None => o,
    }
}

/// Each offset operator of a DICT sets its own offset, to the last operand
/// of the entry, and leaves the others as they were: charset (15) the
/// charset, CharStrings (17) the charstrings, Subrs (19) the local subrs,
/// vstore (24) the variation store, FDArray (12 36) the Font DICT INDEX and
/// FDSelect (12 37) the FDSelect; Private (18) sets the Private DICT's range
/// from its two operands, the size first and then the offset.
pub proof fn offset_operators_set_their_own_offset(o: DictOffsets, d: Seq<u8>, s: int, l: int)
    ensures
        ({
            let (b0, b1) = entry_op(d, s, l);
            let sub = d.subrange(s, s + l);
            let ops = entry_ops(d, s, l);
            let last = if ops.len() > 0 { as_offset(operand_int(sub, ops.last().0)) } else { None };
            let after = offsets_after(o, d, s, l);
            &&& (b0 == 15 && last is Some ==> after == DictOffsets { charset: last, ..o })
            &&& (b0 == 17 && last is Some ==> after == DictOffsets { charstrings: last, ..o })
            &&& (b0 == 19 && last is Some ==> after == DictOffsets { local_subrs: last, ..o })
            &&& (b0 == 24 && last is Some ==> after == DictOffsets { vstore: last, ..o })
            &&& (b0 == 12 && b1 == 36 && last is Some ==> after == DictOffsets { fd_array: last, ..o })
            &&& (b0 == 12 && b1 == 37 && last is Some ==> after == DictOffsets { fd_select: last, ..o })
            &&& (b0 == 18 && ops.len() >= 2 ==> match (as_offset(operand_int(sub, ops[0].0)), as_offset(operand_int(sub, ops[1].0))) {
                (Some(size), Some(start)) => after == DictOffsets { private_range: Some((start, (start + size) as usize)), ..o },
                _ => after == o,
            })
        }),
{
    reveal_strlit("FdArrayOffset");
    reveal_strlit("FdSelectOffset");
    reveal_strlit("CharsetOffset");
    reveal_strlit("CharstringsOffset");
    reveal_strlit("LocalSubrsOffset");
    reveal_strlit("VariationStoreOffset");
    reveal_strlit("PrivateDictOffset");
    assert("FdSelectOffset"@.len() != "FdArrayOffset"@.len());
    assert("CharsetOffset"@[0] != "FdArrayOffset"@[0]);
    assert("CharsetOffset"@.len() != "FdSelectOffset"@.len());
    assert("CharstringsOffset"@.len() != "FdArrayOffset"@.len());
    assert("CharstringsOffset"@.len() != "FdSelectOffset"@.len());
    assert("CharstringsOffset"@.len() != "CharsetOffset"@.len());
    assert("LocalSubrsOffset"@.len() != "FdArrayOffset"@.len());
    assert("LocalSubrsOffset"@.len() != "FdSelectOffset"@.len());
    assert("LocalSubrsOffset"@.len() != "CharsetOffset"@.len());
    assert("LocalSubrsOffset"@.len() != "CharstringsOffset"@.len());
    assert("VariationStoreOffset"@.len() != "FdArrayOffset"@.len());
    assert("VariationStoreOffset"@.len() != "FdSelectOffset"@.len());
    assert("VariationStoreOffset"@.len() != "CharsetOffset"@.len());
    assert("VariationStoreOffset"@.len() != "CharstringsOffset"@.len());
    assert("VariationStoreOffset"@.len() != "LocalSubrsOffset"@.len());
    assert("PrivateDictOffset"@.len() != "FdArrayOffset"@.len());
    assert("PrivateDictOffset"@.len() != "FdSelectOffset"@.len());
    assert("PrivateDictOffset"@.len() != "CharsetOffset"@.len());
    assert("PrivateDictOffset"@[0] != "CharstringsOffset"@[0]);
    assert("PrivateDictOffset"@.len() != "LocalSubrsOffset"@.len());
    assert("PrivateDictOffset"@.len() != "VariationStoreOffset"@.len());
    let (b0, b1) = entry_op(d, s, l);
    if b0 == 15 {
        assert(op_key(b0, b1) == Some("CharsetOffset"@));
    } else if b0 == 17 {
        assert(op_key(b0, b1) == Some("CharstringsOffset"@));
    } else if b0 == 18 {
        assert(op_key(b0, b1) == Some("PrivateDictOffset"@));
    } else if b0 == 19 {
        assert(op_key(b0, b1) == Some("LocalSubrsOffset"@));
    } else if b0 == 24 {
        assert(op_key(b0, b1) == Some("VariationStoreOffset"@));
    } else if b0 == 12 && b1 == 36 {
        assert(op_key(b0, b1) == Some("FdArrayOffset"@));
    } else if b0 == 12 && b1 == 37 {
        assert(op_key(b0, b1) == Some("FdSelectOffset"@));
    }
}

/// The described entries of the DICT entries `ents`, in order.
pub open spec fn dict_items(d: Seq<u8>, base: int, ents: Seq<(int, int)>, is_cff2: bool, t: Seq<u8>, strs: Option<usize>) -> Seq<(Seq<char>, JsonV)>
    decreases ents.len(),
{
    if ents.len() == 0 {
        Seq::empty()
    } else {
        let rest = dict_items(d, base, ents.drop_last(), is_cff2, t, strs);
        match dict_entry(d, base, ents.last().0, ents.last().1, is_cff2, t, strs) {
            Some(p) => rest.push(p),
            None => rest,
        }
    }
}

/// The offsets that the DICT entries `ents` give.
pub open spec fn dict_offsets(d: Seq<u8>, ents: Seq<(int, int)>) -> DictOffsets
    decreases ents.len(),
{
    if ents.len() == 0 {
        no_offsets()
    } else {
        offsets_after(dict_offsets(d, ents.drop_last()), d, ents.last().0, ents.last().1)
    }
}

proof fn lemma_operands_within(d: Seq<u8>, pos: int)
    requires
        0 <= pos,
    ensures
        forall|k: int| 0 <= k < operands_from(d, pos).len() ==> pos <= (#[trigger] operands_from(d, pos)[k]).0 < d.len()
            && operands_from(d, pos)[k].0 + operands_from(d, pos)[k].1 <= d.len() + 5
            && operands_from(d, pos)[k].1 >= 1,
    decreases (if 0 <= pos < d.len() { d.len() - pos } else { 0 }),
{
    if 0 <= pos < d.len() && !is_operator(d[pos]) {
        let n = operand_len(d, pos);
        lemma_real_tail_bound(d, pos + 1);
        lemma_operands_within(d, pos + n);
        let o = operands_from(d, pos);
        assert forall|k: int| 0 <= k < o.len() implies pos <= (#[trigger] o[k]).0 < d.len()
            && o[k].0 + o[k].1 <= d.len() + 5 && o[k].1 >= 1 by {
            if k > 0 {
                assert(o[k] == operands_from(d, pos + n)[k - 1]);
            }
        }
    }
}

fn entry_value_json(sub: &[u8], ops: &Vec<(usize, usize)>, at: usize, ty: &str) -> (r: Json)
    requires
        small_len(sub@.len() as int),
        at + sub@.len() <= usize::MAX / 4,
        pairs_view(ops@) == operands_from(sub@, 0),
    ensures
        r.jv() == entry_value(sub@, operands_from(sub@, 0), at as int, ty@),
{
    proof {
        lemma_operands_within(sub@, 0);
    }
    if ops.len() == 1 {
        assert(pairs_view(ops@)[0] == (ops@[0].0 as int, ops@[0].1 as int));
        return operand_json(sub, ops[0].0).0;
    }
    let ghost want = Seq::new(ops@.len(), |i: int| sfield(ty@, operand_value(sub@, pairs_view(ops@)[i].0), at + pairs_view(ops@)[i].0, pairs_view(ops@)[i].1));
    assert forall|k: int| 0 <= k < ops@.len() implies (#[trigger] ops@[k]).0 < sub@.len() && ops@[k].0 + ops@[k].1 <= sub@.len() + 5 by {
        assert(pairs_view(ops@)[k] == (ops@[k].0 as int, ops@[k].1 as int));
    }
    let mut arr = new_arr();
    let mut i: usize = 0;
    while i < ops.len()
        invariant
            i <= ops@.len(),
            small_len(sub@.len() as int),
            at + sub@.len() <= usize::MAX / 4,
            pairs_view(ops@) == operands_from(sub@, 0),
            forall|k: int| 0 <= k < ops@.len() ==> (#[trigger] ops@[k]).0 < sub@.len() && ops@[k].0 + ops@[k].1 <= sub@.len() + 5,
            want == Seq::new(ops@.len(), |i: int| sfield(ty@, operand_value(sub@, pairs_view(ops@)[i].0), at + pairs_view(ops@)[i].0, pairs_view(ops@)[i].1)),
            jv_seq(arr@) == want.take(i as int),
        decreases ops@.len() - i,
    {
        let (p, n) = ops[i];
        assert(pairs_view(ops@)[i as int] == (p as int, n as int));
        let v = operand_json(sub, p).0;
        push_item(&mut arr, parsed_field(ty, v, at + p, n));
        assert(jv_seq(arr@) =~= want.take(i + 1));
        i = i + 1;
    }
    assert(want.take(ops@.len() as int) =~= want);
    jarr(arr)
}


fn as_offset_exec(v: Option<i64>) -> (r: Option<usize>)
    ensures
        r == as_offset(match v { Some(x) => Some(x as int), None => None }),
{
    match v {
        Some(x) => if 0 <= x && x <= 0x7FFF_FFFF { Some(x as usize) } else { None },
        None => None,
    }
}

fn offsets_after_exec(o: DictOffsets, k: &str, sub: &[u8], ops: &Vec<(usize, usize)>) -> (r: DictOffsets)
    requires
        small_len(sub@.len() as int),
        pairs_view(ops@) == operands_from(sub@, 0),
    ensures
        ({
            let opsv = operands_from(sub@, 0);
            let last = if opsv.len() > 0 { as_offset(operand_int(sub@, opsv.last().0)) } else { None };
            r == (if k@ == "FdArrayOffset"@ && last is Some {
                DictOffsets { fd_array: last, ..o }
            } else if k@ == "FdSelectOffset"@ && last is Some {
                DictOffsets { fd_select: last, ..o }
            } else if k@ == "CharsetOffset"@ && last is Some {
                DictOffsets { charset: last, ..o }
            } else if k@ == "CharstringsOffset"@ && last is Some {
                DictOffsets { charstrings: last, ..o }
            } else if k@ == "LocalSubrsOffset"@ && last is Some {
                DictOffsets { local_subrs: last, ..o }
            } else if k@ == "VariationStoreOffset"@ && last is Some {
                DictOffsets { vstore: last, ..o }
            } else if k@ == "PrivateDictOffset"@ && opsv.len() >= 2 {
                match (as_offset(operand_int(sub@, opsv[0].0)), as_offset(operand_int(sub@, opsv[1].0))) {
                    (Some(len), Some(start)) => DictOffsets { private_range: Some((start, (start + len) as usize)), ..o },
                    _ => o,
                }
            } else {
                o
            })
        }),
{
    proof {
        lemma_operands_within(sub@, 0);
    }
    let n = ops.len();
    let last = if n > 0 {
        assert(pairs_view(ops@)[n - 1] == (ops@[n - 1].0 as int, ops@[n - 1].1 as int));
        as_offset_exec(operand_int_at(sub, ops[n - 1].0))
    } else {
        None
    };
    let t = text(k);
    if t == text("FdArrayOffset") && last.is_some() {
        DictOffsets { fd_array: last, ..o }
    } else if t == text("FdSelectOffset") && last.is_some() {
        DictOffsets { fd_select: last, ..o }
    } else if t == text("CharsetOffset") && last.is_some() {
        DictOffsets { charset: last, ..o }
    } else if t == text("CharstringsOffset") && last.is_some() {
        DictOffsets { charstrings: last, ..o }
    } else if t == text("LocalSubrsOffset") && last.is_some() {
        DictOffsets { local_subrs: last, ..o }
    } else if t == text("VariationStoreOffset") && last.is_some() {
        DictOffsets { vstore: last, ..o }
    } else if t == text("PrivateDictOffset") && n >= 2 {
        assert(pairs_view(ops@)[0] == (ops@[0].0 as int, ops@[0].1 as int));
        assert(pairs_view(ops@)[1] == (ops@[1].0 as int, ops@[1].1 as int));
        let a = as_offset_exec(operand_json(sub, ops[0].0).1);
        let b = as_offset_exec(operand_json(sub, ops[1].0).1);
        match (a, b) {
            (Some(len), Some(start)) => DictOffsets { private_range: Some((start, start + len)), ..o },
            _ => o,
        }
    } else {
        o
    }
}

pub open spec fn opt_entry_view(r: Option<(String, Json)>) -> Option<(Seq<char>, JsonV)> {
    match r {
        Some((k, v)) => Some((k@, v.jv())),
        None => None,
    }
}

/// Describes entry `i` of a DICT (at `s`, `l` bytes) and what it changes of
/// the DICT's offsets.
fn describe_entry(d: &[u8], base: usize, i: usize, s: usize, l: usize, is_cff2: bool, t: &[u8], strs: Option<usize>, o: DictOffsets) -> (r: (Option<(String, Json)>, DictOffsets))
    requires
        small_len(d@.len() as int),
        small_len(t@.len() as int),
        base + d@.len() <= usize::MAX / 4,
        0 <= i < entries_from(d@, 0, 0).len(),
        entries_from(d@, 0, 0)[i as int] == (s as int, l as int),
        l >= 1,
        s + l <= d@.len(),
    ensures
        opt_entry_view(r.0) == dict_entry(d@, base as int, s as int, l as int, is_cff2, t@, strs),
        r.1 == offsets_after(o, d@, s as int, l as int),
{
    proof {
        entry_operands_end_at_operator(d@, i as int);
    }
    let sub = vstd::slice::slice_subrange(d, s, s + l);
    let ops = get_dict_operand_offsets(sub);
    proof {
        lemma_operands_within(sub@, 0);
    }
    let e: usize = if ops.len() == 0 {
        0
    } else {
        let q = ops.len() - 1;
        assert(pairs_view(ops@)[q as int] == (ops@[q as int].0 as int, ops@[q as int].1 as int));
        ops[q].0 + ops[q].1
    };
    assert(e as int == ops_end(entry_ops(d@, s as int, l as int), 0));
    let b0 = sub[e];
    let b1: i32 = if b0 == 12 && e + 1 < l { sub[e + 1] as i32 } else { -1 };
    assert(entry_op(d@, s as int, l as int) == (b0 as int, b1 as int));
    match op_key_str(b0, b1) {
        Some(k) => {
            let ty = key_type_str(k);
            let v = value_json(sub, &ops, base + s, k, ty, t, strs);
            let key = shown_key_str(k, is_cff2);
            let o2 = offsets_after_exec(o, k, sub, &ops);
            (Some((text(key), parsed_field(ty, v, base + s, l))), o2)
        },
        None => (None, o),
    }
}

/// Describes the entries of a DICT that starts at `base` of its table, and
/// the offsets they give.
pub fn parse_dict(d: &[u8], base: usize, is_cff2: bool, t: &[u8], strs: Option<usize>) -> (r: (Vec<(String, Json)>, DictOffsets))
    requires
        small_len(d@.len() as int),
        small_len(t@.len() as int),
        base + d@.len() <= usize::MAX / 4,
    ensures
        jv_entries(r.0@) == dict_items(d@, base as int, entries_from(d@, 0, 0), is_cff2, t@, strs),
        r.1 == dict_offsets(d@, entries_from(d@, 0, 0)),
{
    let offs = get_dict_entry_offsets(d);
    let ghost ents = entries_from(d@, 0, 0);
    proof {
        dict_entries_are_contiguous(d@);
    }
    let mut items = new_obj();
    let mut o = DictOffsets {
        fd_array: None,
        fd_select: None,
        charset: None,
        charstrings: None,
        local_subrs: None,
        vstore: None,
        private_range: None,
    };
    let mut i: usize = 0;
    while i < offs.len()
        invariant
            i <= offs@.len(),
            small_len(d@.len() as int),
            small_len(t@.len() as int),
            base + d@.len() <= usize::MAX / 4,
            ents == entries_from(d@, 0, 0),
            pairs_view(offs@) == ents,
            forall|k: int| 0 <= k < ents.len() ==> (#[trigger] ents[k]).1 >= 1 && ents[k].0 + ents[k].1 <= d@.len() && ents[k].0 >= 0,
            jv_entries(items@) == dict_items(d@, base as int, ents.take(i as int), is_cff2, t@, strs),
            o == dict_offsets(d@, ents.take(i as int)),
        decreases offs@.len() - i,
    {
        let (s, l) = offs[i];
        assert(ents[i as int] == (s as int, l as int));
        assert(ents.take(i + 1).drop_last() =~= ents.take(i as int));
        let (entry, o2) = describe_entry(d, base, i, s, l, is_cff2, t, strs, o);
        match entry {
            Some((k, v)) => {
                let ghost before = jv_entries(items@);
                let ghost vj = v.jv();
                items.push((k, v));
                assert(jv_entries(items@) =~= before.push((k@, vj)));
            },
            None => {},
        }
        o = o2;
        i = i + 1;
    }
    assert(ents.take(offs@.len() as int) =~= ents);
    (items, o)
}

/// The described entries of the Private DICT at `start .. end` of a CFF or
/// CFF2 table, followed by its local Subrs INDEX where it has one that can
/// be read; `None` where the range is not within the table.
pub open spec fn spec_private_dict(t: Seq<u8>, start: int, end: int, is_cff2: bool, strs: Option<usize>) -> Option<Seq<(Seq<char>, JsonV)>> {
    if start > end || end > t.len() {
        None
    } else {
        let d = t.subrange(start, end);
        let ents = entries_from(d, 0, 0);
        let items = dict_items(d, start, ents, is_cff2, t, strs);
        match dict_offsets(d, ents).local_subrs {
            None => Some(items),
            Some(off) => {
                let abs = start + off;
                match spec_bytecode_index(t, abs, is_cff2, is_cff2) {
                    Some((j, size, _)) => Some(items.push((
                        if is_cff2 { "LocalSubrIndex"@ } else { "localSubrsIndex"@ },
                        sfield("INDEX"@, j, abs, size),
                    ))),
                    None => Some(items),
                }
            },
        }
    }
}

pub open spec fn opt_entries_view(r: Option<Vec<(String, Json)>>) -> Option<Seq<(Seq<char>, JsonV)>> {
    match r {
        Some(v) => Some(jv_entries(v@)),
        None => None,
    }
}

/// Describes the Private DICT at `start .. end` of a CFF or CFF2 table.
pub fn parse_private_dict(start: usize, end: usize, t: &[u8], is_cff2: bool, strs: Option<usize>) -> (r: Option<Vec<(String, Json)>>)
    requires
        small_len(t@.len() as int),
    ensures
        opt_entries_view(r) == spec_private_dict(t@, start as int, end as int, is_cff2, strs),
{
    if start > end || end > t.len() {
        return None;
    }
    let d = vstd::slice::slice_subrange(t, start, end);
    let (mut items, o) = parse_dict(d, start, is_cff2, t, strs);
    match o.local_subrs {
        None => Some(items),
        Some(off) => match start.checked_add(off) {
            None => Some(items),
            Some(abs) => match bytecode_index(abs, t, is_cff2, is_cff2) {
                Some((j, size, _)) => {
                    let key = if is_cff2 { "LocalSubrIndex" } else { "localSubrsIndex" };
                    push_entry(&mut items, key, parsed_field("INDEX", j, abs, size));
                    Some(items)
                },
                None => Some(items),
            },
        },
    }
}

/// Where the last entry with key `key` stands, or -1.
pub open spec fn last_key_index(items: Seq<(Seq<char>, JsonV)>, key: Seq<char>) -> int
    decreases items.len(),
{
    if items.len() == 0 {
        -1
    } else if items.last().0 == key {
        items.len() - 1
    } else {
        last_key_index(items.drop_last(), key)
    }
}

proof fn lemma_last_key_index_bounds(items: Seq<(Seq<char>, JsonV)>, key: Seq<char>)
    ensures
        -1 <= last_key_index(items, key) < items.len(),
    decreases items.len(),
{
    if items.len() > 0 {
        lemma_last_key_index_bounds(items.drop_last(), key);
    }
}

/// The entries with `x` inserted after the last entry with key `key` (and
/// unchanged where there is none).
pub open spec fn insert_after_key(items: Seq<(Seq<char>, JsonV)>, key: Seq<char>, x: (Seq<char>, JsonV)) -> Seq<(Seq<char>, JsonV)> {
    let j = last_key_index(items, key);
    if j < 0 { items } else { items.insert(j + 1, x) }
}

/// Inserts `name: value` after the last entry with key `key`.
pub fn insert_entry_after(items: &mut Vec<(String, Json)>, key: &str, name: &str, value: Json)
    ensures
        jv_entries(final(items)@) == insert_after_key(jv_entries(old(items)@), key@, (name@, value.jv())),
{
    let ghost vj = value.jv();
    let ghost before = jv_entries(items@);
    let k = text(key);
    let mut found: Option<usize> = None;
    let mut i: usize = 0;
    while i < items.len()
        invariant
            i <= items@.len(),
            k@ == key@,
            before == jv_entries(items@),
            match found {
                Some(j) => j < i && last_key_index(before.take(i as int), key@) == j as int,
                None => last_key_index(before.take(i as int), key@) == -1,
            },
        decreases items@.len() - i,
    {
        assert(before.take(i + 1).drop_last() =~= before.take(i as int));
        assert(before[i as int].0 == items@[i as int].0@);
        if items[i].0 == k {
            found = Some(i);
        }
        i = i + 1;
    }
    assert(before.take(items@.len() as int) =~= before);
    proof {
        lemma_last_key_index_bounds(before, key@);
    }
    match found {
        Some(j) => {
            items.insert(j + 1, (text(name), value));
            assert(jv_entries(items@) =~= before.insert(j + 1, (name@, vj)));
        },
        None => {},
    }
}

/// The described entries of the DICT at `start` (`len` bytes) of a CFF or
/// CFF2 table, with its Private DICT after the entry that points to it
/// where that DICT can be read.
pub open spec fn spec_font_dict(t: Seq<u8>, start: int, len: int, is_cff2: bool, strs: Option<usize>) -> Seq<(Seq<char>, JsonV)> {
    let d = t.subrange(start, start + len);
    let ents = entries_from(d, 0, 0);
    let items = dict_items(d, start, ents, is_cff2, t, strs);
    match dict_offsets(d, ents).private_range {
        Some((a, b)) => match spec_private_dict(t, a as int, b as int, is_cff2, strs) {
            Some(p) => insert_after_key(items, "PrivateDictOffset"@, ("PrivateDict"@, sfield("DICT"@, JsonV::Obj(p), a as int, b - a))),
            None => items,
        },
        None => items,
    }
}

/// Describes the DICT at `start` (`len` bytes) of a CFF or CFF2 table, with
/// its Private DICT; gives the offsets it holds too.
pub fn parse_font_dict(start: usize, len: usize, t: &[u8], is_cff2: bool, strs: Option<usize>) -> (r: (Vec<(String, Json)>, DictOffsets))
    requires
        small_len(t@.len() as int),
        start + len <= t@.len(),
    ensures
        jv_entries(r.0@) == spec_font_dict(t@, start as int, len as int, is_cff2, strs),
        r.1 == dict_offsets(t@.subrange(start as int, start + len), entries_from(t@.subrange(start as int, start + len), 0, 0)),
{
    let d = vstd::slice::slice_subrange(t, start, start + len);
    let (mut items, o) = parse_dict(d, start, is_cff2, t, strs);
    match o.private_range {
        Some((a, b)) => match parse_private_dict(a, b, t, is_cff2, strs) {
            Some(p) => {
                insert_entry_after(&mut items, "PrivateDictOffset", "PrivateDict", parsed_field("DICT", jobj(p), a, b - a));
            },
            None => {},
        },
        None => {},
    }
    (items, o)
}

/// The font DICTs of an INDEX whose object data starts at `base`: one per
/// object that can be read, in order.
pub open spec fn fd_items(t: Seq<u8>, objs: Seq<(Option<usize>, Option<usize>)>, base: int, is_cff2: bool, strs: Option<usize>) -> Seq<JsonV>
    decreases objs.len(),
{
    if objs.len() == 0 {
        Seq::empty()
    } else {
        let rest = fd_items(t, objs.drop_last(), base, is_cff2, strs);
        match objs.last() {
            (Some(s), Some(l)) => rest.push(JsonV::Obj(spec_font_dict(t, base + s, l as int, is_cff2, strs))),
            _ => rest,
        }
    }
}

/// The FDArray INDEX at `offset` of a CFF or CFF2 table: its described
/// fields and its size; `None` past the table or where the INDEX cannot be
/// read.
pub open spec fn spec_parse_fd_array(t: Seq<u8>, offset: int, is_cff2: bool, strs: Option<usize>) -> Option<(JsonV, int)> {
    if offset > t.len() {
        None
    } else {
        match cff_index_read(t.subrange(offset, t.len() as int), is_cff2) {
            None => None,
            Some(ix) => {
                let size: int = match ix.2 { Some(v) => v as int, None => 0 };
                let base = offset + index_data_start(is_cff2, ix.0 as int, ix.1 as int);
                Some((spec_parse_index(t, offset, size, JsonV::Arr(fd_items(t, ix.3, base, is_cff2, strs)), "DICT"@, is_cff2), size))
            },
        }
    }
}

/// Describes the FDArray INDEX at `offset` of a CFF or CFF2 table: each font
/// DICT with its Private DICT.
pub fn parse_fd_array(offset: usize, cff_table_bytes: &[u8], is_cff2: bool, strs: Option<usize>) -> (r: Option<(Json, usize)>)
    requires
        small_len(cff_table_bytes@.len() as int),
    ensures
        opt_pair_view(r) == spec_parse_fd_array(cff_table_bytes@, offset as int, is_cff2, strs),
{
    let t = cff_table_bytes;
    if offset > t.len() {
        return None;
    }
    let sub = vstd::slice::slice_subrange(t, offset, t.len());
    let ix = match read_cff_index(sub, is_cff2) {
        Some(ix) => ix,
        None => return None,
    };
    let size: usize = match ix.size { Some(v) => v, None => 0 };
    let cl: usize = if is_cff2 { 4 } else { 2 };
    assert((ix.count as int + 1) * (ix.off_size as int) <= 0x1_0000_0000 * 255) by (nonlinear_arith)
        requires
            ix.count as int + 1 <= 0x1_0000_0000,
    ;
    let data_start: u64 = cl as u64 + 1 + (ix.count as u64 + 1) * (ix.off_size as u64);
    let ghost base = offset + index_data_start(is_cff2, ix.count as int, ix.off_size as int);
    let mut list = new_arr();
    let mut i: usize = 0;
    let n = ix.objects.len();
    while i < n
        invariant
            n == ix.objects@.len(),
            i <= n,
            index_read_facts(sub@, is_cff2, index_read_view(ix)),
            sub@.len() + offset == t@.len(),
            small_len(t@.len() as int),
            data_start == index_data_start(is_cff2, ix.count as int, ix.off_size as int),
            base == offset + data_start,
            jv_seq(list@) == fd_items(t@, ix.objects@.take(i as int), base, is_cff2, strs),
        decreases n - i,
    {
        assert(ix.objects@.take(i + 1).drop_last() =~= ix.objects@.take(i as int));
        let o = ix.objects[i];
        match o {
            (Some(s), Some(l)) => {
                assert(ix.objects@[i as int].1 is Some);
                let at = offset + (data_start as usize) + s;
                let (items, _) = parse_font_dict(at, l, t, is_cff2, strs);
                push_item(&mut list, jobj(items));
            },
            _ => {},
        }
        i = i + 1;
    }
    assert(ix.objects@.take(n as int) =~= ix.objects@);
    let index_json = parse_index(t, offset, size, jarr(list), "DICT", is_cff2);
    Some((index_json, size))
}
} // verus!
