use vstd::prelude::*;
use vstd::slice::slice_subrange;
use crate::json::{
    jnum, jint, jarr, jobj, jv_entries, jv_seq, new_arr, new_obj, parsed_field, push_entry,
    push_item, sfield, text, Json, JsonV, span_within,
};
use crate::reader::{be_i16, be_i32, be_u16, be_u32, i16_at, i32_at, small_len, u16_at, u32_at};
use crate::text::{dec, dec_string, fixed_string, fixed_text, hex_0x, hex_0x_string, utf8_string};
use crate::font::{tag_string, tag_text};
use vstd::string::StringExecFns;

verus! {

/// How the bytes of a field are shown.
#[derive(Clone, Copy)]
pub enum Kind {
    U8,
    U16,
    I16,
    U32,
    I32,
    /// A reserved 16-bit field, shown as 0.
    Zero16,
    /// A 32-bit value as `0x` and eight hexadecimal digits.
    HexU32,
    /// A four-byte tag as text.
    Tag,
    /// Two 16-bit numbers as `major.minor`.
    MajorMinor,
    /// A 16.16 version as `major.minor`, the minor being the top nibble of
    /// the low half.
    Version16Dot16,
    /// A 16.16 fixed-point number as decimal text.
    FixedText,
    /// A 16.16 fixed-point number.
    FixedNum,
    FsType,
    Selection,
    MacStyle,
    HeadFlags,
    LongDateTime,
    Panose,
}

/// When an optional field is part of the table.
#[derive(Clone, Copy)]
pub enum Cond {
    Always,
    /// The 16-bit version at offset 0 is at least this.
    VersionAtLeast(u16),
    /// The major half of the 16.16 version at offset 0 is this.
    MajorIs(u16),
}

/// One field of a fixed layout: its key, its type name, how it is shown and
/// when it is present.
#[derive(Clone, Copy)]
pub struct Item {
    pub key: &'static str,
    pub ty: &'static str,
    pub kind: Kind,
    pub cond: Cond,
}

pub open spec fn kind_size(k: Kind) -> int {
    match k {
        Kind::U8 => 1,
        Kind::U16 | Kind::I16 | Kind::Zero16 | Kind::FsType | Kind::Selection | Kind::MacStyle
        | Kind::HeadFlags => 2,
        Kind::LongDateTime => 8,
        Kind::Panose => 10,
        _ => 4,
    }
}

pub open spec fn cond_holds(t: Seq<u8>, c: Cond) -> bool {
    match c {
        Cond::Always => true,
        Cond::VersionAtLeast(v) => u16_at(t, 0) >= v,
        Cond::MajorIs(m) => u16_at(t, 0) == m,
    }
}

/// The text of a tag value: its UTF-8 text, or where the bytes are not UTF-8,
/// the tag as displayed.
pub open spec fn tag_value(b: Seq<u8>) -> Seq<char> {
    if vstd::utf8::valid_utf8(b) { vstd::utf8::decode_utf8(b) } else { tag_text(b) }
}

pub open spec fn v1616_text(t: Seq<u8>, pos: int) -> Seq<char> {
    dec(u16_at(t, pos) as nat, 1) + "."@ + dec((t[pos + 2] as int / 16) as nat, 1)
}

pub open spec fn panose_names() -> Seq<Seq<char>> {
    seq![
        "bFamilyType"@, "bSerifStyle"@, "bWeight"@, "bProportion"@, "bContrast"@,
        "bStrokeVariation"@, "bArmStyle"@, "bLetterform"@, "bMidline"@, "bXHeight"@,
    ]
}

pub open spec fn panose_items(t: Seq<u8>, pos: int) -> Seq<JsonV> {
    Seq::new(
        10,
        |i: int|
            JsonV::Obj(
                seq![
                    ("name"@, JsonV::Str(panose_names()[i])),
                    ("type"@, JsonV::Str("uint8"@)),
                    ("value"@, JsonV::Num(t[pos + i] as int)),
                    ("offset"@, JsonV::Num(pos + i)),
                    ("length"@, JsonV::Num(1)),
                ],
            ),
    )
}

/// The value of a field of kind `k` at `pos`.
pub open spec fn kind_value(t: Seq<u8>, pos: int, k: Kind) -> JsonV {
    match k {
        Kind::U8 => JsonV::Num(t[pos] as int),
        Kind::U16 => JsonV::Num(u16_at(t, pos)),
        Kind::I16 => JsonV::Num(i16_at(t, pos)),
        Kind::U32 => JsonV::Num(u32_at(t, pos)),
        Kind::I32 => JsonV::Num(i32_at(t, pos)),
        Kind::Zero16 => JsonV::Num(0),
        Kind::HexU32 => JsonV::Str(hex_0x(u32_at(t, pos) as nat, 8)),
        Kind::Tag => JsonV::Str(tag_value(t.subrange(pos, pos + 4))),
        Kind::MajorMinor => JsonV::Str(
            dec(u16_at(t, pos) as nat, 1) + "."@ + dec(u16_at(t, pos + 2) as nat, 1),
        ),
        Kind::Version16Dot16 => JsonV::Str(v1616_text(t, pos)),
        Kind::FixedText => JsonV::Str(fixed_text(i32_at(t, pos) as i32)),
        Kind::FixedNum => JsonV::Fixed(i32_at(t, pos)),
        Kind::FsType => JsonV::Str(crate::os2::spec_format_fs_type(u16_at(t, pos) as u16)),
        Kind::Selection => JsonV::Str(crate::os2::spec_format_selection_flags(u16_at(t, pos) as u16)),
        Kind::MacStyle => JsonV::Str(crate::head::spec_format_mac_style(u16_at(t, pos) as u16)),
        Kind::HeadFlags => JsonV::Str(crate::head::spec_format_head_flags(u16_at(t, pos) as u16)),
        Kind::LongDateTime => JsonV::Str(
            crate::head::spec_format_long_date_time(t.subrange(pos, pos + 8)),
        ),
        Kind::Panose => JsonV::Arr(panose_items(t, pos)),
    }
}

pub open spec fn item_view(it: Item) -> (Seq<char>, Seq<char>, Kind, Cond) {
    (it.key@, it.ty@, it.kind, it.cond)
}

pub open spec fn items_view(s: Seq<Item>) -> Seq<(Seq<char>, Seq<char>, Kind, Cond)> {
    s.map_values(|it: Item| item_view(it))
}

/// The described fields of a layout from item `i` on, the item standing at
/// `pos`: a field whose condition holds takes its bytes, and is shown where
/// they lie within the table.
pub open spec fn layout_fields(
    t: Seq<u8>,
    items: Seq<(Seq<char>, Seq<char>, Kind, Cond)>,
    i: int,
    pos: int,
) -> Seq<(Seq<char>, JsonV)>
    decreases items.len() - i,
{
    if i < 0 || i >= items.len() {
        seq![]
    } else {
        let it = items[i];
        if cond_holds(t, it.3) {
            let size = kind_size(it.2);
            let here: Seq<(Seq<char>, JsonV)> = if pos + size <= t.len() {
                seq![(it.0, sfield(it.1, kind_value(t, pos, it.2), pos, size))]
            } else {
                seq![]
            };
            here + layout_fields(t, items, i + 1, pos + size)
        } else {
            layout_fields(t, items, i + 1, pos)
        }
    }
}

/// Where the layout from item `i` on ends.
pub open spec fn layout_end(t: Seq<u8>, items: Seq<(Seq<char>, Seq<char>, Kind, Cond)>, i: int, pos: int) -> int
    decreases items.len() - i,
{
    if i < 0 || i >= items.len() {
        pos
    } else if cond_holds(t, items[i].3) {
        layout_end(t, items, i + 1, pos + kind_size(items[i].2))
    } else {
        layout_end(t, items, i + 1, pos)
    }
}

proof fn lemma_fields_within(t: Seq<u8>, items: Seq<(Seq<char>, Seq<char>, Kind, Cond)>, i: int, pos: int)
    requires
        0 <= pos,
    ensures
        forall|k: int|
            0 <= k < layout_fields(t, items, i, pos).len() ==> span_within(#[trigger] layout_fields(t, items, i, pos)[k].1, pos, t.len() as int),
    decreases items.len() - i,
{
    if 0 <= i < items.len() {
        let it = items[i];
        if cond_holds(t, it.3) {
            let size = kind_size(it.2);
            lemma_fields_within(t, items, i + 1, pos + size);
            let here: Seq<(Seq<char>, JsonV)> = if pos + size <= t.len() {
                seq![(it.0, sfield(it.1, kind_value(t, pos, it.2), pos, size))]
            } else {
                seq![]
            };
            let rest = layout_fields(t, items, i + 1, pos + size);
            assert(size >= 1);
            if pos + size <= t.len() {
                assert(span_within(sfield(it.1, kind_value(t, pos, it.2), pos, size), pos, t.len() as int));
            }
            assert(layout_fields(t, items, i, pos) == here + rest);
            assert forall|k: int| 0 <= k < layout_fields(t, items, i, pos).len() implies span_within(
                #[trigger] layout_fields(t, items, i, pos)[k].1,
                pos,
                t.len() as int,
            ) by {
                if k >= here.len() {
                    assert((here + rest)[k] == rest[k - here.len()]);
                    assert(span_within(rest[k - here.len()].1, pos + size, t.len() as int));
                } else {
                    assert((here + rest)[k] == here[k]);
                }
            }
        } else {
            lemma_fields_within(t, items, i + 1, pos);
            assert(layout_fields(t, items, i, pos) == layout_fields(t, items, i + 1, pos));
        }
    }
}

/// Every field that a fixed layout shows lies within the table: its bytes
/// start at or after where the layout starts, and end by the table's end.
pub proof fn layout_fields_lie_within(t: Seq<u8>, items: Seq<(Seq<char>, Seq<char>, Kind, Cond)>, start: nat)
    ensures
        forall|k: int|
            0 <= k < layout_fields(t, items, 0, start as int).len() ==> span_within(#[trigger] layout_fields(t, items, 0, start as int)[k].1, start as int, t.len() as int),
{
    lemma_fields_within(t, items, 0, start as int);
}

/// The bytes that the `k` items from item `i` on take, each applying.
pub open spec fn size_before(items: Seq<(Seq<char>, Seq<char>, Kind, Cond)>, i: int, k: int) -> int
    decreases k,
{
    if k <= 0 {
        0
    } else {
        size_before(items, i, k - 1) + kind_size(items[i + k - 1].2)
    }
}

/// Whether each of the `n` items from item `i` on applies to the table.
pub open spec fn prefix_applies(t: Seq<u8>, items: Seq<(Seq<char>, Seq<char>, Kind, Cond)>, i: int, n: int) -> bool
    decreases n,
{
    n <= 0 || (cond_holds(t, items[i].3) && prefix_applies(t, items, i + 1, n - 1))
}

proof fn lemma_size_before_shift(items: Seq<(Seq<char>, Seq<char>, Kind, Cond)>, i: int, k: int)
    requires
        k >= 1,
    ensures
        size_before(items, i, k) == kind_size(items[i].2) + size_before(items, i + 1, k - 1),
    decreases k,
{
    if k > 1 {
        lemma_size_before_shift(items, i, k - 1);
        assert(size_before(items, i + 1, k - 1) == size_before(items, i + 1, k - 2) + kind_size(items[i + k - 1].2));
    } else {
        assert(size_before(items, i, 0) == 0);
        assert(size_before(items, i + 1, 0) == 0);
    }
}

proof fn lemma_size_before_grows(items: Seq<(Seq<char>, Seq<char>, Kind, Cond)>, i: int, k: int, n: int)
    requires
        0 <= k <= n,
    ensures
        size_before(items, i, k) + (n - k) <= size_before(items, i, n),
    decreases n - k,
{
    if k < n {
        lemma_size_before_grows(items, i, k, n - 1);
    }
}

/// A fixed layout whose first `n` items (from item `i`, placed at `pos`)
/// all apply and fit in the table shows exactly those items first, in
/// order, each under its own name and type, read at the offset where the
/// bytes of the items before it end, and as long as its kind.
pub proof fn layout_fields_in_order(t: Seq<u8>, items: Seq<(Seq<char>, Seq<char>, Kind, Cond)>, i: int, pos: int, n: int)
    requires
        0 <= i,
        0 <= n,
        i + n <= items.len(),
        prefix_applies(t, items, i, n),
        pos + size_before(items, i, n) <= t.len(),
    ensures
        layout_fields(t, items, i, pos).len() >= n,
        forall|k: int|
            0 <= k < n ==> #[trigger] layout_fields(t, items, i, pos)[k] == (
                items[i + k].0,
                sfield(
                    items[i + k].1,
                    kind_value(t, pos + size_before(items, i, k), items[i + k].2),
                    pos + size_before(items, i, k),
                    kind_size(items[i + k].2),
                ),
            ),
    decreases n,
{
    if n > 0 {
        let it = items[i];
        let size = kind_size(it.2);
        lemma_size_before_shift(items, i, n);
        lemma_size_before_grows(items, i + 1, 0, n - 1);
        layout_fields_in_order(t, items, i + 1, pos + size, n - 1);
        let here: Seq<(Seq<char>, JsonV)> = seq![(it.0, sfield(it.1, kind_value(t, pos, it.2), pos, size))];
        let rest = layout_fields(t, items, i + 1, pos + size);
        assert(layout_fields(t, items, i, pos) == here + rest);
        assert forall|k: int| 0 <= k < n implies #[trigger] layout_fields(t, items, i, pos)[k] == (
            items[i + k].0,
            sfield(
                items[i + k].1,
                kind_value(t, pos + size_before(items, i, k), items[i + k].2),
                pos + size_before(items, i, k),
                kind_size(items[i + k].2),
            ),
        ) by {
            if k > 0 {
                lemma_size_before_shift(items, i, k);
                assert((here + rest)[k] == rest[k - 1]);
                assert(i + 1 + (k - 1) == i + k);
            } else {
                assert((here + rest)[0] == here[0]);
            }
        }
    }
}

fn kind_size_exec(k: Kind) -> (r: usize)
    ensures
        r == kind_size(k),
{
    match k {
        Kind::U8 => 1,
        Kind::U16 | Kind::I16 | Kind::Zero16 | Kind::FsType | Kind::Selection | Kind::MacStyle
        | Kind::HeadFlags => 2,
        Kind::LongDateTime => 8,
        Kind::Panose => 10,
        _ => 4,
    }
}

fn cond_holds_exec(t: &[u8], c: Cond) -> (r: bool)
    requires
        t@.len() >= 2,
    ensures
        r == cond_holds(t@, c),
{
    match c {
        Cond::Always => true,
        Cond::VersionAtLeast(v) => be_u16(t, 0) >= v,
        Cond::MajorIs(m) => be_u16(t, 0) == m,
    }
}

fn tag_value_string(t: &[u8], pos: usize) -> (r: String)
    requires
        pos + 4 <= t@.len(),
        small_len(t@.len() as int),
    ensures
        r@ == tag_value(t@.subrange(pos as int, pos + 4)),
{
    let b = slice_subrange(t, pos, pos + 4);
    match utf8_string(b) {
        Some(s) => s,
        None => tag_string(t, pos),
    }
}

fn panose_value(t: &[u8], pos: usize) -> (r: Json)
    requires
        pos + 10 <= t@.len(),
        small_len(t@.len() as int),
    ensures
        r.jv() == JsonV::Arr(panose_items(t@, pos as int)),
{
    let names: Vec<&str> = vec![
        "bFamilyType", "bSerifStyle", "bWeight", "bProportion", "bContrast",
        "bStrokeVariation", "bArmStyle", "bLetterform", "bMidline", "bXHeight",
    ];
    assert(names@.map_values(|s: &str| s@) =~= panose_names());
    let ghost want = panose_items(t@, pos as int);
    let mut items = new_arr();
    let mut i: usize = 0;
    while i < 10
        invariant
            i <= 10,
            pos + 10 <= t@.len(),
            small_len(t@.len() as int),
            names@.len() == 10,
            names@.map_values(|s: &str| s@) == panose_names(),
            want == panose_items(t@, pos as int),
            jv_seq(items@) == want.take(i as int),
        decreases 10 - i,
    {
        let mut o = new_obj();
        push_entry(&mut o, "name", Json::Str(text(names[i])));
        push_entry(&mut o, "type", Json::Str(text("uint8")));
        push_entry(&mut o, "value", jnum(t[pos + i] as u64));
        push_entry(&mut o, "offset", jnum((pos + i) as u64));
        push_entry(&mut o, "length", jnum(1));
        assert(names@.map_values(|s: &str| s@)[i as int] == names@[i as int]@);
        assert(jv_entries(o@) =~= want[i as int]->Obj_0);
        push_item(&mut items, jobj(o));
        assert(jv_seq(items@) =~= want.take(i + 1));
        i = i + 1;
    }
    assert(want.take(10) =~= want);
    jarr(items)
}

/// The value of a field of kind `k` at `pos`.
pub fn kind_value_exec(t: &[u8], pos: usize, k: Kind) -> (r: Json)
    requires
        pos + kind_size(k) <= t@.len(),
        small_len(t@.len() as int),
    ensures
        r.jv() == kind_value(t@, pos as int, k),
{
    match k {
        Kind::U8 => jnum(t[pos] as u64),
        Kind::U16 => jnum(be_u16(t, pos) as u64),
        Kind::I16 => jint(be_i16(t, pos) as i64),
        Kind::U32 => jnum(be_u32(t, pos) as u64),
        Kind::I32 => jint(be_i32(t, pos) as i64),
        Kind::Zero16 => jnum(0),
        Kind::HexU32 => Json::Str(hex_0x_string(be_u32(t, pos) as u64, 8)),
        Kind::Tag => Json::Str(tag_value_string(t, pos)),
        Kind::MajorMinor => {
            let mut s = dec_string(be_u16(t, pos) as u64, 1);
            s.append(".");
            let m = dec_string(be_u16(t, pos + 2) as u64, 1);
            s.append(m.as_str());
            Json::Str(s)
        },
        Kind::Version16Dot16 => {
            let mut s = dec_string(be_u16(t, pos) as u64, 1);
            s.append(".");
            let m = dec_string((t[pos + 2] / 16) as u64, 1);
            s.append(m.as_str());
            Json::Str(s)
        },
        Kind::FixedText => Json::Str(fixed_string(be_i32(t, pos))),
        Kind::FixedNum => Json::Fixed(be_i32(t, pos)),
        Kind::FsType => Json::Str(crate::os2::format_fs_type(be_u16(t, pos))),
        Kind::Selection => Json::Str(crate::os2::format_selection_flags(be_u16(t, pos))),
        Kind::MacStyle => Json::Str(crate::head::format_mac_style(be_u16(t, pos))),
        Kind::HeadFlags => Json::Str(crate::head::format_head_flags(be_u16(t, pos))),
        Kind::LongDateTime => {
            let b = slice_subrange(t, pos, pos + 8);
            Json::Str(crate::head::format_long_date_time(b))
        },
        Kind::Panose => panose_value(t, pos),
    }
}

proof fn lemma_layout_end_mono(t: Seq<u8>, items: Seq<(Seq<char>, Seq<char>, Kind, Cond)>, i: int, pos: int)
    ensures
        layout_end(t, items, i, pos) >= pos,
        layout_end(t, items, i, pos) <= pos + 10 * (if 0 <= i <= items.len() { items.len() - i } else { 0 }),
    decreases items.len() - i,
{
    if 0 <= i < items.len() {
        if cond_holds(t, items[i].3) {
            lemma_layout_end_mono(t, items, i + 1, pos + kind_size(items[i].2));
        } else {
            lemma_layout_end_mono(t, items, i + 1, pos);
        }
    }
}

/// Appends the described fields of a layout, starting at offset `start`;
/// returns where the layout ends.
pub fn read_layout(t: &[u8], items: &Vec<Item>, start: usize, o: &mut Vec<(String, Json)>) -> (r: usize)
    requires
        t@.len() >= 2,
        small_len(t@.len() as int),
        start <= t@.len(),
        items@.len() <= 100,
    ensures
        jv_entries(final(o)@) == jv_entries(old(o)@) + layout_fields(t@, items_view(items@), 0, start as int),
        r == layout_end(t@, items_view(items@), 0, start as int),
{
    let ghost iv = items_view(items@);
    let ghost base = jv_entries(o@);
    let mut pos: usize = start;
    let mut i: usize = 0;
    proof {
        lemma_layout_end_mono(t@, iv, 0, start as int);
    }
    while i < items.len()
        invariant
            i <= items@.len(),
            items@.len() <= 100,
            t@.len() >= 2,
            small_len(t@.len() as int),
            pos <= start + 10 * i,
            start <= t@.len(),
            iv == items_view(items@),
            base + layout_fields(t@, iv, 0, start as int) == jv_entries(o@) + layout_fields(t@, iv, i as int, pos as int),
            layout_end(t@, iv, 0, start as int) == layout_end(t@, iv, i as int, pos as int),
        decreases items@.len() - i,
    {
        let it = items[i];
        assert(iv[i as int] == item_view(it));
        if cond_holds_exec(t, it.cond) {
            let size = kind_size_exec(it.kind);
            if pos + size <= t.len() {
                let v = kind_value_exec(t, pos, it.kind);
                let ghost prev = jv_entries(o@);
                push_entry(o, it.key, parsed_field(it.ty, v, pos, size));
                assert(jv_entries(o@) + layout_fields(t@, iv, i + 1, pos + size) =~= prev + layout_fields(t@, iv, i as int, pos as int));
            } else {
                assert(layout_fields(t@, iv, i + 1, pos + size) =~= layout_fields(t@, iv, i as int, pos as int));
            }
            pos = pos + size;
        }
        i = i + 1;
    }
    assert(layout_fields(t@, iv, i as int, pos as int) =~= Seq::<(Seq<char>, JsonV)>::empty());
    assert(base + layout_fields(t@, iv, 0, start as int) =~= jv_entries(o@));
    pos
}

} // verus!
