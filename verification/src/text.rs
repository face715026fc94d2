use vstd::prelude::*;
use vstd::string::StringExecFns;
use crate::json::text;

verus! {

/// The upper-case hexadecimal digit of `d` (`d < 16`).
pub open spec fn hex_char(d: nat) -> char {
    if d < 10 {
        ((d + 48) as u8) as char
    } else {
        ((d + 55) as u8) as char
    }
}

/// The decimal digit of `d` (`d < 10`).
pub open spec fn dec_char(d: nat) -> char {
    ((d + 48) as u8) as char
}

/// `v` in upper-case hexadecimal, padded with zeros to at least `width` digits.
pub open spec fn hex(v: nat, width: nat) -> Seq<char>
    decreases v + width,
{
    if v < 16 && width <= 1 {
        seq![hex_char(v)]
    } else {
        hex(v / 16, if width > 0 { (width - 1) as nat } else { 0 }) + seq![hex_char(v % 16)]
    }
}

/// `v` in decimal, padded with zeros to at least `width` digits.
pub open spec fn dec(v: nat, width: nat) -> Seq<char>
    decreases v + width,
{
    if v < 10 && width <= 1 {
        seq![dec_char(v)]
    } else {
        dec(v / 10, if width > 0 { (width - 1) as nat } else { 0 }) + seq![dec_char(v % 10)]
    }
}

/// The value of an upper-case hexadecimal digit, or -1 for another character.
pub open spec fn hex_digit_value(c: char) -> int {
    if '0' <= c && c <= '9' {
        c as int - 48
    } else if 'A' <= c && c <= 'F' {
        c as int - 55
    } else {
        -1
    }
}

/// The number that a text of hexadecimal digits spells, most significant first.
pub open spec fn hex_value(s: Seq<char>) -> int
    decreases s.len(),
{
    if s.len() == 0 {
        0
    } else {
        hex_value(s.drop_last()) * 16 + hex_digit_value(s.last())
    }
}

/// The value of a decimal digit, or -1 for another character.
pub open spec fn dec_digit_value(c: char) -> int {
    if '0' <= c && c <= '9' {
        c as int - 48
    } else {
        -1
    }
}

/// The number that a text of decimal digits spells, most significant first.
pub open spec fn dec_value(s: Seq<char>) -> int
    decreases s.len(),
{
    if s.len() == 0 {
        0
    } else {
        dec_value(s.drop_last()) * 10 + dec_digit_value(s.last())
    }
}

/// A number written in hexadecimal reads back as that number: the text has
/// at least the asked width, each character is an upper-case hexadecimal
/// digit, and the digits spell the number.
pub proof fn hex_reads_back(v: nat, width: nat)
    ensures
        hex_value(hex(v, width)) == v,
        hex(v, width).len() >= width,
        hex(v, width).len() >= 1,
        forall|i: int| 0 <= i < hex(v, width).len() ==> 0 <= #[trigger] hex_digit_value(hex(v, width)[i]) < 16,
    decreases v + width,
{
    if v < 16 && width <= 1 {
        let c = hex_char(v);
        assert(hex_digit_value(c) == v);
        assert(hex(v, width).drop_last() =~= Seq::<char>::empty());
        assert(hex_value(hex(v, width)) == hex_value(Seq::<char>::empty()) * 16 + hex_digit_value(c));
    } else {
        let w2: nat = if width > 0 { (width - 1) as nat } else { 0 };
        hex_reads_back(v / 16, w2);
        let a = hex(v / 16, w2);
        let c = hex_char(v % 16);
        assert(hex_digit_value(c) == v % 16);
        assert((a + seq![c]).drop_last() =~= a);
        assert(hex(v, width) == a + seq![c]);
        assert(hex_value(a + seq![c]) == hex_value(a) * 16 + hex_digit_value(c));
        assert(v == (v / 16) * 16 + v % 16);
        assert forall|i: int| 0 <= i < hex(v, width).len() implies 0 <= #[trigger] hex_digit_value(hex(v, width)[i]) < 16 by {
            if i < a.len() {
                assert(hex(v, width)[i] == a[i]);
            }
        }
    }
}

/// A number written in decimal reads back as that number: the text has at
/// least the asked width, each character is a decimal digit, and the
/// digits spell the number.
pub proof fn dec_reads_back(v: nat, width: nat)
    ensures
        dec_value(dec(v, width)) == v,
        dec(v, width).len() >= width,
        dec(v, width).len() >= 1,
        forall|i: int| 0 <= i < dec(v, width).len() ==> 0 <= #[trigger] dec_digit_value(dec(v, width)[i]) < 10,
    decreases v + width,
{
    if v < 10 && width <= 1 {
        let c = dec_char(v);
        assert(dec_digit_value(c) == v);
        assert(dec(v, width).drop_last() =~= Seq::<char>::empty());
        assert(dec_value(dec(v, width)) == dec_value(Seq::<char>::empty()) * 10 + dec_digit_value(c));
    } else {
        let w2: nat = if width > 0 { (width - 1) as nat } else { 0 };
        dec_reads_back(v / 10, w2);
        let a = dec(v / 10, w2);
        let c = dec_char(v % 10);
        assert(dec_digit_value(c) == v % 10);
        assert((a + seq![c]).drop_last() =~= a);
        assert(dec(v, width) == a + seq![c]);
        assert(dec_value(a + seq![c]) == dec_value(a) * 10 + dec_digit_value(c));
        assert(v == (v / 10) * 10 + v % 10);
        assert forall|i: int| 0 <= i < dec(v, width).len() implies 0 <= #[trigger] dec_digit_value(dec(v, width)[i]) < 10 by {
            if i < a.len() {
                assert(dec(v, width)[i] == a[i]);
            }
        }
    }
}

/// `v` in decimal with a leading minus sign when negative.
pub open spec fn dec_signed(v: int) -> Seq<char> {
    if v < 0 {
        seq!['-'] + dec((-v) as nat, 1)
    } else {
        dec(v as nat, 1)
    }
}

/// The items of `list` with `sep` between each two neighbours.
pub open spec fn join(list: Seq<Seq<char>>, sep: Seq<char>) -> Seq<char>
    decreases list.len(),
{
    if list.len() == 0 {
        seq![]
    } else if list.len() == 1 {
        list[0]
    } else {
        join(list.drop_last(), sep) + sep + list.last()
    }
}

fn digit_str(d: u64) -> (r: &'static str)
    requires
        d < 16,
    ensures
        r@ == seq![hex_char(d as nat)],
{
    proof {
        reveal_strlit("0");
        reveal_strlit("1");
        reveal_strlit("2");
        reveal_strlit("3");
        reveal_strlit("4");
        reveal_strlit("5");
        reveal_strlit("6");
        reveal_strlit("7");
        reveal_strlit("8");
        reveal_strlit("9");
        reveal_strlit("A");
        reveal_strlit("B");
        reveal_strlit("C");
        reveal_strlit("D");
        reveal_strlit("E");
        reveal_strlit("F");
    }
    let r = match d {
        0 => "0",
        1 => "1",
        2 => "2",
        3 => "3",
        4 => "4",
        5 => "5",
        6 => "6",
        7 => "7",
        8 => "8",
        9 => "9",
        10 => "A",
        11 => "B",
        12 => "C",
        13 => "D",
        14 => "E",
        _ => "F",
    };
    assert(r@ =~= seq![hex_char(d as nat)]);
    r
}

/// Upper-case hexadecimal text of `v`, at least `width` digits.
pub fn hex_string(v: u64, width: u64) -> (r: String)
    ensures
        r@ == hex(v as nat, width as nat),
    decreases v + width,
{
    let mut s = if v < 16 && width <= 1 {
        String::new()
    } else {
        hex_string(v / 16, if width > 0 { width - 1 } else { 0 })
    };
    let d = digit_str(v % 16);
    s.append(d);
    proof {
        if v < 16 && width <= 1 {
            assert(s@ =~= seq![hex_char(v as nat)]);
        }
    }
    s
}

/// Decimal text of `v`, at least `width` digits.
pub fn dec_string(v: u64, width: u64) -> (r: String)
    ensures
        r@ == dec(v as nat, width as nat),
    decreases v + width,
{
    let mut s = if v < 10 && width <= 1 {
        String::new()
    } else {
        dec_string(v / 10, if width > 0 { width - 1 } else { 0 })
    };
    let d = digit_str(v % 10);
    s.append(d);
    proof {
        if v < 10 && width <= 1 {
            assert(s@ =~= seq![dec_char(v as nat)]);
        }
    }
    s
}

/// Decimal text of a signed value.
pub fn dec_signed_string(v: i64) -> (r: String)
    ensures
        r@ == dec_signed(v as int),
{
    if v < 0 {
        let mag: u64 = if v == i64::MIN { 9223372036854775808u64 } else { (-v) as u64 };
        let mut s = text("-");
        let d = dec_string(mag, 1);
        s.append(d.as_str());
        proof { reveal_strlit("-"); }
        s
    } else {
        dec_string(v as u64, 1)
    }
}

/// `0x` followed by the hexadecimal text of `v` in `width` digits.
pub open spec fn hex_0x(v: nat, width: nat) -> Seq<char> {
    "0x"@ + hex(v, width)
}

pub fn hex_0x_string(v: u64, width: u64) -> (r: String)
    ensures
        r@ == hex_0x(v as nat, width as nat),
{
    let mut s = text("0x");
    let h = hex_string(v, width);
    s.append(h.as_str());
    s
}

/// Joins the texts of `list` with `sep` (the standard `join` on string slices).
pub fn join_strs(list: &Vec<&str>, sep: &str) -> (r: String)
    ensures
        r@ == join(list@.map_values(|s: &str| s@), sep@),
{
    let ghost views = list@.map_values(|s: &str| s@);
    let mut r = String::new();
    let mut i: usize = 0;
    while i < list.len()
        invariant
            0 <= i <= list.len(),
            views == list@.map_values(|s: &str| s@),
            r@ == join(views.take(i as int), sep@),
        decreases list.len() - i,
    {
        if i != 0 {
            r.append(sep);
        }
        r.append(list[i]);
        assert(views.take(i + 1).drop_last() =~= views.take(i as int));
        i = i + 1;
    }
    assert(views.take(list.len() as int) =~= views);
    r
}

/// `prefix (label)`: a value followed by its meaning in parentheses.
pub open spec fn labelled(prefix: Seq<char>, label: Seq<char>) -> Seq<char> {
    prefix + " ("@ + label + ")"@
}

pub fn labelled_string(prefix: String, label: &str) -> (r: String)
    ensures
        r@ == labelled(prefix@, label@),
{
    let mut s = prefix;
    s.append(" (");
    s.append(label);
    s.append(")");
    s
}

} // verus!

verus! {

/// The text of an optional label.
pub open spec fn opt_text(o: Option<&str>) -> Option<Seq<char>> {
    match o {
        Some(s) => Some(s@),
        None => None,
    }
}

pub open spec fn opt_string(o: Option<String>) -> Option<Seq<char>> {
    match o {
        Some(s) => Some(s@),
        None => None,
    }
}


/// The names of the flags of `table` that are set in `bits`, in table order.
pub open spec fn flag_names(bits: u64, table: Seq<(u64, Seq<char>)>) -> Seq<Seq<char>>
    decreases table.len(),
{
    if table.len() == 0 {
        seq![]
    } else {
        let rest = flag_names(bits, table.drop_last());
        if bits & table.last().0 != 0 {
            rest.push(table.last().1)
        } else {
            rest
        }
    }
}

pub open spec fn table_view(t: Seq<(u64, &str)>) -> Seq<(u64, Seq<char>)> {
    t.map_values(|p: (u64, &str)| (p.0, p.1@))
}

pub open spec fn strs_view(v: Seq<&str>) -> Seq<Seq<char>> {
    v.map_values(|s: &str| s@)
}

/// The names of the flags of `table` that are set in `bits`.
pub fn set_flag_names(bits: u64, table: &Vec<(u64, &'static str)>) -> (r: Vec<&'static str>)
    ensures
        strs_view(r@) == flag_names(bits, table_view(table@)),
{
    let mut r: Vec<&'static str> = Vec::new();
    let mut i: usize = 0;
    while i < table.len()
        invariant
            0 <= i <= table@.len(),
            strs_view(r@) == flag_names(bits, table_view(table@.take(i as int))),
        decreases table@.len() - i,
    {
        let (mask, name) = table[i];
        assert(table_view(table@.take(i + 1)).drop_last() =~= table_view(table@.take(i as int)));
        let ghost prev = r@;
        if bits & mask != 0 {
            r.push(name);
            assert(strs_view(r@) =~= strs_view(prev).push(name@));
        }
        i = i + 1;
    }
    assert(table@.take(table@.len() as int) =~= table@);
    r
}


/// Bits in hexadecimal, then the names of the flags that are set, or `empty`
/// where none is, in parentheses.
pub open spec fn flags_text(bits: nat, width: nat, names: Seq<Seq<char>>, empty: Seq<char>) -> Seq<
    char,
> {
    labelled(hex_0x(bits, width), if names.len() == 0 { empty } else { join(names, ", "@) })
}

pub fn flags_string(bits: u64, width: u64, names: &Vec<&str>, empty: &str) -> (r: String)
    ensures
        r@ == flags_text(bits as nat, width as nat, strs_view(names@), empty@),
{
    let label = if names.len() == 0 {
        text(empty)
    } else {
        join_strs(names, ", ")
    };
    labelled_string(hex_0x_string(bits, width), label.as_str())
}

/// Bits in hexadecimal, followed by the names of the set flags in
/// parentheses where any is set.
pub open spec fn flags_text_opt(bits: nat, width: nat, names: Seq<Seq<char>>) -> Seq<char> {
    if names.len() == 0 {
        hex_0x(bits, width)
    } else {
        labelled(hex_0x(bits, width), join(names, ", "@))
    }
}

pub fn flags_string_opt(bits: u64, width: u64, names: &Vec<&str>) -> (r: String)
    ensures
        r@ == flags_text_opt(bits as nat, width as nat, strs_view(names@)),
{
    if names.len() == 0 {
        hex_0x_string(bits, width)
    } else {
        let label = join_strs(names, ", ");
        labelled_string(hex_0x_string(bits, width), label.as_str())
    }
}


/// A one-character string (`char::to_string`).
#[verifier::external_body]
pub fn char_string(c: char) -> (r: String)
    ensures
        r@ == seq![c],
{
    c.to_string()
}

/// The text of UTF-8 bytes, if they are valid UTF-8 (`std::str::from_utf8`).
#[verifier::external_body]
pub fn utf8_string(bytes: &[u8]) -> (r: Option<String>)
    ensures
        r is Some <==> vstd::utf8::valid_utf8(bytes@),
        r matches Some(s) ==> s@ == vstd::utf8::decode_utf8(bytes@),
{
    std::str::from_utf8(bytes).ok().map(|s| s.to_string())
}


/// 10 to the power `p`.
pub open spec fn pow10(p: int) -> int
    decreases p,
{
    if p <= 0 { 1 } else { 10 * pow10(p - 1) }
}

/// The fewest decimal places (0 to 5) whose nearest decimal lies strictly
/// within half a step of `mag / 65536`, from `p` places on, with the digits
/// at that many places.
pub open spec fn shortest_places(mag: int, p: int) -> (int, int)
    decreases 5 - p,
{
    let pw = pow10(p);
    let digits = (2 * mag * pw + 65536) / 131072;
    let diff = if digits * 65536 >= mag * pw { digits * 65536 - mag * pw } else { mag * pw - digits * 65536 };
    if p >= 5 || diff * 2 < pw {
        (digits, p)
    } else {
        shortest_places(mag, p + 1)
    }
}

/// The text of a 16.16 fixed-point value, by its raw 32-bit value: the
/// shortest decimal that reads back to it, with a minus sign when negative
/// and no decimal point for whole values.
pub open spec fn fixed_text(raw: i32) -> Seq<char> {
    let mag: int = if raw < 0 { -(raw as int) } else { raw as int };
    let (digits, p) = shortest_places(mag, 0);
    (if raw < 0 { "-"@ } else { ""@ }) + dec((digits / pow10(p)) as nat, 1)
        + if p > 0 { "."@ + dec((digits % pow10(p)) as nat, p as nat) } else { ""@ }
}

fn pow10_exec(p: u64) -> (r: u64)
    requires
        p <= 5,
    ensures
        r == pow10(p as int),
        1 <= r <= 100_000,
{
    proof {
        reveal_with_fuel(pow10, 6);
    }
    if p == 0 { 1 } else if p == 1 { 10 } else if p == 2 { 100 } else if p == 3 { 1000 } else if p == 4 { 10_000 } else { 100_000 }
}

/// The text of a 16.16 fixed-point value, as font-types shows a `Fixed`:
/// the shortest decimal that reads back to it.
pub fn fixed_string(raw: i32) -> (r: String)
    ensures
        r@ == fixed_text(raw),
{
    let mag: u64 = if raw < 0 { (-(raw as i64)) as u64 } else { raw as u64 };
    assert(mag <= 0x8000_0000);
    let mut p: u64 = 0;
    let mut digits: u64 = 0;
    loop
        invariant_except_break
            p <= 5,
            mag <= 0x8000_0000,
            shortest_places(mag as int, 0) == shortest_places(mag as int, p as int),
        ensures
            p <= 5,
            (digits as int, p as int) == shortest_places(mag as int, 0),
        decreases 5 - p,
    {
        let pw = pow10_exec(p);
        assert(mag * pw <= 0x8000_0000 * 100_000 && 2 * mag * pw <= 0x8000_0000 * 200_000) by (nonlinear_arith)
            requires
                mag <= 0x8000_0000,
                pw <= 100_000,
        ;
        let d = (2 * mag * pw + 65536) / 131072;
        assert(d * 65536 <= mag * pw + 65536) by (nonlinear_arith)
            requires
                d == (2 * mag * pw + 65536) / 131072,
        ;
        let diff = if d * 65536 >= mag * pw { d * 65536 - mag * pw } else { mag * pw - d * 65536 };
        if p >= 5 || diff * 2 < pw {
            digits = d;
            break;
        }
        p = p + 1;
    }
    let pw = pow10_exec(p);
    let ghost magi: int = if raw < 0 { -(raw as int) } else { raw as int };
    assert(mag as int == magi);
    let mut s = if raw < 0 { text("-") } else { String::new() };
    proof {
        reveal_strlit("-");
        reveal_strlit("");
        reveal_strlit(".");
    }
    let ghost sign: Seq<char> = if raw < 0 { "-"@ } else { ""@ };
    assert(s@ =~= sign);
    let whole = dec_string(digits / pw, 1);
    s.append(whole.as_str());
    let ghost tail: Seq<char> = if p > 0 { "."@ + dec((digits % pw) as nat, p as nat) } else { ""@ };
    if p > 0 {
        s.append(".");
        let frac = dec_string(digits % pw, p);
        s.append(frac.as_str());
    }
    assert(s@ =~= sign + dec((digits / pw) as nat, 1) + tail);
    s
}

} // verus!
