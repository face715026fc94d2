use vstd::prelude::*;
use vstd::string::{StrSliceExecFns, StringExecFns};
use crate::json::text;
use crate::text::{dec, dec_string};

verus! {

/// How many glyphs one search call looks at before it hands back a position
/// to continue from.
pub const SEARCH_WINDOW: usize = 2000;

/// The column a search looks in: the target without a leading `column:`,
/// and `all` where no target is given.
pub open spec fn spec_target_key(target: Option<Seq<char>>) -> Seq<char> {
    match target {
        None => "all"@,
        Some(t) => if t.len() >= 7 && t.subrange(0, 7) == "column:"@ {
            t.subrange(7, t.len() as int)
        } else {
            t
        },
    }
}

pub open spec fn opt_str_view(t: Option<&str>) -> Option<Seq<char>> {
    match t {
        None => None,
        Some(s) => Some(s@),
    }
}

/// The column that a search target names.
pub fn target_key(target: Option<&str>) -> (r: String)
    ensures
        r@ == spec_target_key(opt_str_view(target)),
{
    match target {
        None => text("all"),
        Some(t) => {
            let n = t.unicode_len();
            let prefix = "column:";
            proof {
                reveal_strlit("column:");
            }
            if n >= 7 && same_chars(t.substring_char(0, 7), prefix) {
                String::from_str(t.substring_char(7, n))
            } else {
                String::from_str(t)
            }
        },
    }
}

/// Whether two texts hold the same characters.
fn same_chars(a: &str, b: &str) -> (r: bool)
    ensures
        r == (a@ == b@),
{
    text(a) == text(b)
}

/// Whether a search target names the index column.
pub fn is_index_target(target: Option<&str>) -> (r: bool)
    ensures
        r == (spec_target_key(opt_str_view(target)) == "index"@),
{
    let k = target_key(target);
    same_chars(k.as_str(), "index")
}

/// Whether every character is an ASCII digit.
pub open spec fn all_digits(s: Seq<char>) -> bool {
    forall|i: int| 0 <= i < s.len() ==> '0' <= #[trigger] s[i] <= '9'
}

/// The number that a run of decimal digits spells.
pub open spec fn digits_value(s: Seq<char>) -> int
    decreases s.len(),
{
    if s.len() == 0 {
        0
    } else {
        digits_value(s.drop_last()) * 10 + (s.last() as int - '0' as int)
    }
}

/// The digits of a query read as an unsigned number: an optional `+`, then
/// at least one digit, and a value that fits in `usize`.
pub open spec fn spec_parse_usize(q: Seq<char>) -> Option<int> {
    let d = if q.len() > 0 && q[0] == '+' { q.subrange(1, q.len() as int) } else { q };
    if d.len() > 0 && all_digits(d) && digits_value(d) <= usize::MAX {
        Some(digits_value(d))
    } else {
        None
    }
}

proof fn lemma_digits_value_nonneg(s: Seq<char>)
    requires
        all_digits(s),
    ensures
        digits_value(s) >= 0,
    decreases s.len(),
{
    if s.len() > 0 {
        lemma_digits_value_nonneg(s.drop_last());
    }
}

/// A run of digits is worth at least any of its prefixes.
proof fn lemma_digits_value_prefix(s: Seq<char>, k: int)
    requires
        all_digits(s),
        0 <= k <= s.len(),
    ensures
        digits_value(s.take(k)) <= digits_value(s),
    decreases s.len(),
{
    if k < s.len() {
        let p = s.drop_last();
        lemma_digits_value_prefix(p, k);
        assert(p.take(k) =~= s.take(k));
        lemma_digits_value_nonneg(p);
    } else {
        assert(s.take(k) =~= s);
    }
}

/// Reads a query as an unsigned number, as `str::parse::<usize>` does.
pub fn parse_usize(q: &str) -> (r: Option<usize>)
    ensures
        match r {
            Some(v) => spec_parse_usize(q@) == Some(v as int),
            None => spec_parse_usize(q@) is None,
        },
{
    let n = q.unicode_len();
    let start: usize = if n > 0 && q.get_char(0) == '+' { 1 } else { 0 };
    let ghost d = if q@.len() > 0 && q@[0] == '+' { q@.subrange(1, q@.len() as int) } else { q@ };
    assert(d =~= q@.subrange(start as int, n as int));
    if start >= n {
        return None;
    }
    let mut acc: usize = 0;
    let mut overflow = false;
    let mut i = start;
    while i < n
        invariant
            start <= i <= n,
            n == q@.len(),
            d =~= q@.subrange(start as int, n as int),
            d == (if q@.len() > 0 && q@[0] == '+' { q@.subrange(1, q@.len() as int) } else { q@ }),
            all_digits(d.take(i - start)),
            !overflow ==> acc == digits_value(d.take(i - start)),
            overflow ==> digits_value(d.take(i - start)) > usize::MAX,
        decreases n - i,
    {
        let c = q.get_char(i);
        if !('0' <= c && c <= '9') {
            assert(d[i - start] == c);
            assert(!all_digits(d));
            assert(spec_parse_usize(q@) is None);
            return None;
        }
        let ghost prev = d.take(i - start);
        let ghost next = d.take(i - start + 1);
        assert(next.drop_last() =~= prev);
        assert(next.last() == c);
        proof {
            lemma_digits_value_nonneg(prev);
        }
        let digit: usize = (c as u32 - '0' as u32) as usize;
        if !overflow {
            match acc.checked_mul(10) {
                Some(m) => match m.checked_add(digit) {
                    Some(v) => {
                        acc = v;
                    },
                    None => {
                        overflow = true;
                    },
                },
                None => {
                    overflow = true;
                },
            }
        }
        i = i + 1;
        assert(all_digits(d.take(i - start)));
    }
    assert(d.take(i - start) =~= d);
    if overflow {
        None
    } else {
        Some(acc)
    }
}

/// The answer of a search in the index column: the glyph whose index the
/// query spells exactly, if there is one, and otherwise no glyph with the
/// position unchanged.
pub open spec fn spec_index_query(q: Seq<char>, num_glyphs: usize, offset: usize) -> (Option<usize>, usize) {
    match spec_parse_usize(q) {
        Some(i) => if i < num_glyphs {
            (Some(i as usize), i as usize)
        } else {
            (None, offset)
        },
        None => (None, offset),
    }
}

/// Searches the index column: the query must spell the index exactly.
pub fn index_query(query: &str, num_glyphs: usize, offset: usize) -> (r: (Option<usize>, usize))
    ensures
        r == spec_index_query(query@, num_glyphs, offset),
{
    match parse_usize(query) {
        Some(i) => if i < num_glyphs {
            (Some(i), i)
        } else {
            (None, offset)
        },
        None => (None, offset),
    }
}

pub open spec fn min_int(a: int, b: int) -> int {
    if a <= b { a } else { b }
}

/// How many glyphs one search call looks at from `offset`: up to the window
/// size, never past the last glyph going forward nor below glyph 0 going
/// backward, and none from a position past the last glyph.
pub open spec fn spec_window_len(offset: int, num_glyphs: int, forward: bool) -> int {
    if offset >= num_glyphs {
        0
    } else if forward {
        min_int(SEARCH_WINDOW as int, num_glyphs - offset)
    } else {
        min_int(SEARCH_WINDOW as int, offset + 1)
    }
}

/// The glyph at place `k` of the window.
pub open spec fn window_glyph(offset: int, forward: bool, k: int) -> int {
    if forward { offset + k } else { offset - k }
}

/// Where a search that found nothing in its window stops.
pub open spec fn window_end(offset: int, num_glyphs: int, forward: bool) -> int {
    if offset >= num_glyphs {
        offset
    } else if forward {
        offset + min_int(SEARCH_WINDOW as int, num_glyphs - offset)
    } else if offset < SEARCH_WINDOW as int {
        0
    } else {
        offset - SEARCH_WINDOW as int
    }
}

/// Whether the glyph at place `k` of the window matched; places past the
/// list did not.
pub open spec fn matched_at(m: Seq<bool>, k: int) -> bool {
    0 <= k < m.len() && m[k]
}

/// The first place from `k` on, before `len`, whose glyph matched.
pub open spec fn first_match(m: Seq<bool>, k: int, len: int) -> Option<int>
    decreases len - k,
{
    if k >= len {
        None
    } else if matched_at(m, k) {
        Some(k)
    } else {
        first_match(m, k + 1, len)
    }
}

/// The answer of one search call: the first glyph of the window, taken in
/// the direction of the scan, that matched, or no glyph and where the scan
/// stopped.
pub open spec fn spec_search_window(offset: usize, num_glyphs: usize, forward: bool, m: Seq<bool>) -> (Option<usize>, usize) {
    let len = spec_window_len(offset as int, num_glyphs as int, forward);
    match first_match(m, 0, len) {
        Some(k) => (Some(window_glyph(offset as int, forward, k) as usize), window_glyph(offset as int, forward, k) as usize),
        None => (None, window_end(offset as int, num_glyphs as int, forward) as usize),
    }
}

/// How many glyphs one search call looks at; `matched[k]` below is for the
/// glyph at place `k` of this window.
pub fn window_len(offset: usize, num_glyphs: usize, forward: bool) -> (r: usize)
    ensures
        r == spec_window_len(offset as int, num_glyphs as int, forward),
{
    if offset >= num_glyphs {
        0
    } else if forward {
        if num_glyphs - offset < SEARCH_WINDOW { num_glyphs - offset } else { SEARCH_WINDOW }
    } else {
        if offset < SEARCH_WINDOW { offset + 1 } else { SEARCH_WINDOW }
    }
}

/// The glyph at place `k` of the window.
pub fn window_glyph_at(offset: usize, num_glyphs: usize, forward: bool, k: usize) -> (r: usize)
    requires
        k < spec_window_len(offset as int, num_glyphs as int, forward),
    ensures
        r == window_glyph(offset as int, forward, k as int),
{
    if forward { offset + k } else { offset - k }
}

/// One search call over a window of glyphs, given for each glyph of the
/// window whether it matched.
pub fn search_window(offset: usize, num_glyphs: usize, forward: bool, matched: &Vec<bool>) -> (r: (Option<usize>, usize))
    ensures
        r == spec_search_window(offset, num_glyphs, forward, matched@),
{
    let len = window_len(offset, num_glyphs, forward);
    let mut k: usize = 0;
    while k < len
        invariant
            k <= len,
            len == spec_window_len(offset as int, num_glyphs as int, forward),
            first_match(matched@, 0, len as int) == first_match(matched@, k as int, len as int),
        decreases len - k,
    {
        if k < matched.len() && matched[k] {
            let g = window_glyph_at(offset, num_glyphs, forward, k);
            return (Some(g), g);
        }
        k = k + 1;
    }
    let end: usize = if offset >= num_glyphs {
        offset
    } else if forward {
        offset + len
    } else if offset < SEARCH_WINDOW {
        0
    } else {
        offset - SEARCH_WINDOW
    };
    (None, end)
}

/// Whether `q` stands somewhere in `h`.
pub open spec fn contains(h: Seq<char>, q: Seq<char>) -> bool {
    exists|i: int| 0 <= i && i + q.len() <= h.len() && #[trigger] h.subrange(i, i + q.len()) == q
}

fn text_at(h: &str, q: &str, i: usize) -> (r: bool)
    requires
        i + q@.len() <= h@.len() <= usize::MAX,
    ensures
        r == (h@.subrange(i as int, i + q@.len()) == q@),
{
    let qn = q.unicode_len();
    let mut j: usize = 0;
    while j < qn
        invariant
            j <= qn,
            qn == q@.len(),
            i + qn <= h@.len() <= usize::MAX,
            h@.subrange(i as int, i + j) == q@.take(j as int),
        decreases qn - j,
    {
        if h.get_char(i + j) != q.get_char(j) {
            assert(h@.subrange(i as int, i + qn)[j as int] != q@[j as int]);
            return false;
        }
        assert(h@.subrange(i as int, i + j + 1) =~= q@.take(j + 1));
        j = j + 1;
    }
    assert(q@.take(qn as int) =~= q@);
    true
}

/// Whether `q` stands somewhere in `h`, as `str::contains` answers.
pub fn text_contains(h: &str, q: &str) -> (r: bool)
    ensures
        r == contains(h@, q@),
{
    let hn = h.unicode_len();
    let qn = q.unicode_len();
    if qn > hn {
        return false;
    }
    let last = hn - qn;
    let mut i: usize = 0;
    loop
        invariant
            qn <= hn,
            hn == h@.len(),
            qn == q@.len(),
            last == hn - qn,
            i <= last,
            forall|k: int| 0 <= k < i ==> #[trigger] h@.subrange(k, k + qn) != q@,
        decreases last - i,
    {
        if text_at(h, q, i) {
            return true;
        }
        if i == last {
            return false;
        }
        i = i + 1;
    }
}

/// Whether the decimal text of a glyph index holds the query.
pub fn index_text_contains(index: usize, query: &str) -> (r: bool)
    ensures
        r == contains(dec(index as nat, 1), query@),
{
    let s = dec_string(index as u64, 1);
    text_contains(s.as_str(), query)
}


/// How many glyphs a filtered batch looks at at most.
pub const BATCH_SCAN: usize = 1000;

/// The glyphs a filtered batch takes from place `k` of its scan on, having
/// found `found` so far: it goes on while glyphs are left, fewer than `limit`
/// were found and fewer than the scan limit were looked at; it answers the
/// glyphs found and where the next batch starts.
pub open spec fn batch_scan(m: Seq<bool>, offset: int, num_glyphs: int, limit: int, k: int, found: Seq<int>) -> (Seq<int>, int)
    decreases BATCH_SCAN as int - k,
{
    if k >= BATCH_SCAN as int || offset + k >= num_glyphs || found.len() >= limit {
        (found, offset + k)
    } else {
        batch_scan(m, offset, num_glyphs, limit, k + 1, if matched_at(m, k) { found.push(offset + k) } else { found })
    }
}

/// How many glyphs a filtered batch from `offset` may look at: the flags
/// below are for these glyphs, in order.
pub fn batch_scan_len(offset: usize, num_glyphs: usize) -> (r: usize)
    ensures
        r == (if offset >= num_glyphs { 0 } else { min_int(BATCH_SCAN as int, num_glyphs - offset) }),
{
    if offset >= num_glyphs {
        0
    } else if num_glyphs - offset < BATCH_SCAN {
        num_glyphs - offset
    } else {
        BATCH_SCAN
    }
}

pub open spec fn usizes_view(v: Seq<usize>) -> Seq<int> {
    v.map_values(|x: usize| x as int)
}

/// A batch of glyphs filtered by a query, given for each glyph from
/// `offset` on whether its text holds the query: the glyphs taken, and
/// where the next batch starts.
pub fn filter_batch(offset: usize, num_glyphs: usize, limit: usize, matched: &Vec<bool>) -> (r: (Vec<usize>, usize))
    ensures
        (usizes_view(r.0@), r.1 as int) == batch_scan(matched@, offset as int, num_glyphs as int, limit as int, 0, Seq::empty()),
{
    let mut found: Vec<usize> = Vec::new();
    assert(usizes_view(found@) =~= Seq::<int>::empty());
    let mut k: usize = 0;
    while k < BATCH_SCAN && offset < num_glyphs && k < num_glyphs - offset && found.len() < limit
        invariant
            k <= BATCH_SCAN,
            offset < num_glyphs ==> k <= num_glyphs - offset,
            offset >= num_glyphs ==> k == 0,
            batch_scan(matched@, offset as int, num_glyphs as int, limit as int, k as int, usizes_view(found@))
                == batch_scan(matched@, offset as int, num_glyphs as int, limit as int, 0, Seq::empty()),
        decreases BATCH_SCAN - k,
    {
        if k < matched.len() && matched[k] {
            let ghost before = found@;
            found.push(offset + k);
            assert(usizes_view(found@) =~= usizes_view(before).push(offset + k));
        }
        k = k + 1;
    }
    (found, offset + k)
}
} // verus!
