use vstd::prelude::*;
use vstd::slice::slice_subrange;
use crate::text::{dec, dec_string, hex, hex_string, labelled, labelled_string, opt_text, opt_string};
use crate::json::{
    jarr, jint, jnum, jobj, jv_entries, jv_seq, new_arr, new_obj, parsed_field, parsed_field_sum,
    parsed_view, push_entry, push_item, sfield, sfield_sum, text, Json, JsonV,
};
use crate::reader::{be_i16, be_u16, be_u24, be_u32, i16_at, small_len, u16_at, u24_at, u32_at};
use crate::name::{field_with_summary, opt_field};
use vstd::string::StringExecFns;

verus! {

/// The meaning of a Unicode-platform encoding ID.
pub open spec fn spec_unicode_encoding_label(encoding_id: u16) -> Option<Seq<char>> {
    match encoding_id {
        0 => Some("Unicode 1.0 semantics"@),
        1 => Some("Unicode 1.1 semantics"@),
        2 => Some("ISO/IEC 10646 semantics"@),
        3 => Some("Unicode 2.0 and onwards semantics, BMP only"@),
        4 => Some("Unicode 2.0 and onwards semantics, full repertoire"@),
        5 => Some("Unicode Variation Sequences"@),
        6 => Some("Unicode full repertoire"@),
        _ => None,
    }
}

pub fn unicode_encoding_label(encoding_id: u16) -> (r: Option<&'static str>)
    ensures
        opt_text(r) == spec_unicode_encoding_label(encoding_id),
{
    match encoding_id {
        0 => Some("Unicode 1.0 semantics"),
        1 => Some("Unicode 1.1 semantics"),
        2 => Some("ISO/IEC 10646 semantics"),
        3 => Some("Unicode 2.0 and onwards semantics, BMP only"),
        4 => Some("Unicode 2.0 and onwards semantics, full repertoire"),
        5 => Some("Unicode Variation Sequences"),
        6 => Some("Unicode full repertoire"),
        _ => None,
    }
}

/// The meaning of a Macintosh-platform encoding ID.
pub open spec fn spec_macintosh_encoding_label(encoding_id: u16) -> Option<Seq<char>> {
    match encoding_id {
        0 => Some("Roman"@),
        1 => Some("Japanese"@),
        2 => Some("Chinese (Traditional)"@),
        3 => Some("Korean"@),
        4 => Some("Arabic"@),
        5 => Some("Hebrew"@),
        6 => Some("Greek"@),
        7 => Some("Russian"@),
        8 => Some("RSymbol"@),
        9 => Some("Devanagari"@),
        10 => Some("Gurmukhi"@),
        11 => Some("Gujarati"@),
        12 => Some("Odia"@),
        13 => Some("Bangla"@),
        14 => Some("Tamil"@),
        15 => Some("Telugu"@),
        16 => Some("Kannada"@),
        17 => Some("Malayalam"@),
        18 => Some("Sinhalese"@),
        19 => Some("Burmese"@),
        20 => Some("Khmer"@),
        21 => Some("Thai"@),
        22 => Some("Laotian"@),
        23 => Some("Georgian"@),
        24 => Some("Armenian"@),
        25 => Some("Chinese (Simplified)"@),
        26 => Some("Tibetan"@),
        27 => Some("Mongolian"@),
        28 => Some("Geez"@),
        29 => Some("Slavic"@),
        30 => Some("Vietnamese"@),
        31 => Some("Sindhi"@),
        32 => Some("Uninterpreted"@),
        _ => None,
    }
}

pub fn macintosh_encoding_label(encoding_id: u16) -> (r: Option<&'static str>)
    ensures
        opt_text(r) == spec_macintosh_encoding_label(encoding_id),
{
    match encoding_id {
        0 => Some("Roman"),
        1 => Some("Japanese"),
        2 => Some("Chinese (Traditional)"),
        3 => Some("Korean"),
        4 => Some("Arabic"),
        5 => Some("Hebrew"),
        6 => Some("Greek"),
        7 => Some("Russian"),
        8 => Some("RSymbol"),
        9 => Some("Devanagari"),
        10 => Some("Gurmukhi"),
        11 => Some("Gujarati"),
        12 => Some("Odia"),
        13 => Some("Bangla"),
        14 => Some("Tamil"),
        15 => Some("Telugu"),
        16 => Some("Kannada"),
        17 => Some("Malayalam"),
        18 => Some("Sinhalese"),
        19 => Some("Burmese"),
        20 => Some("Khmer"),
        21 => Some("Thai"),
        22 => Some("Laotian"),
        23 => Some("Georgian"),
        24 => Some("Armenian"),
        25 => Some("Chinese (Simplified)"),
        26 => Some("Tibetan"),
        27 => Some("Mongolian"),
        28 => Some("Geez"),
        29 => Some("Slavic"),
        30 => Some("Vietnamese"),
        31 => Some("Sindhi"),
        32 => Some("Uninterpreted"),
        _ => None,
    }
}

/// The meaning of an ISO-platform encoding ID.
pub open spec fn spec_iso_encoding_label(encoding_id: u16) -> Option<Seq<char>> {
    match encoding_id {
        0 => Some("7-bit ASCII"@),
        1 => Some("ISO/IEC 10646"@),
        2 => Some("ISO/IEC 8859-1"@),
        _ => None,
    }
}

pub fn iso_encoding_label(encoding_id: u16) -> (r: Option<&'static str>)
    ensures
        opt_text(r) == spec_iso_encoding_label(encoding_id),
{
    match encoding_id {
        0 => Some("7-bit ASCII"),
        1 => Some("ISO/IEC 10646"),
        2 => Some("ISO/IEC 8859-1"),
        _ => None,
    }
}

/// The meaning of a Windows-platform encoding ID.
pub open spec fn spec_windows_encoding_label(encoding_id: u16) -> Option<Seq<char>> {
    match encoding_id {
        0 => Some("Symbol"@),
        1 => Some("Unicode BMP"@),
        2 => Some("ShiftJIS"@),
        3 => Some("PRC"@),
        4 => Some("Big5"@),
        5 => Some("Wansung"@),
        6 => Some("Johab"@),
        7 => Some("Reserved"@),
        8 => Some("Reserved"@),
        9 => Some("Reserved"@),
        10 => Some("Unicode full repertoire"@),
        _ => None,
    }
}

pub fn windows_encoding_label(encoding_id: u16) -> (r: Option<&'static str>)
    ensures
        opt_text(r) == spec_windows_encoding_label(encoding_id),
{
    match encoding_id {
        0 => Some("Symbol"),
        1 => Some("Unicode BMP"),
        2 => Some("ShiftJIS"),
        3 => Some("PRC"),
        4 => Some("Big5"),
        5 => Some("Wansung"),
        6 => Some("Johab"),
        7 => Some("Reserved"),
        8 => Some("Reserved"),
        9 => Some("Reserved"),
        10 => Some("Unicode full repertoire"),
        _ => None,
    }
}

/// The number by which a platform ID is shown: IDs above 4 all stand for
/// one "unknown" platform, numbered 5.
pub open spec fn platform_number(platform_id: u16) -> nat {
    if platform_id <= 4 { platform_id as nat } else { 5 }
}

pub open spec fn platform_name(platform_id: u16) -> Seq<char> {
    match platform_id {
        0 => "Unicode"@,
        1 => "Macintosh"@,
        2 => "ISO"@,
        3 => "Windows"@,
        4 => "Custom"@,
        _ => "Unknown"@,
    }
}

pub open spec fn spec_format_platform_id(platform_id: u16) -> Seq<char> {
    labelled(dec(platform_number(platform_id), 1), platform_name(platform_id))
}

/// The platform ID with its name, such as `3 (Windows)`.
pub fn format_platform_id(platform_id: u16) -> (r: String)
    ensures
        r@ == spec_format_platform_id(platform_id),
{
    let (num, name): (u64, &str) = match platform_id {
        0 => (0, "Unicode"),
        1 => (1, "Macintosh"),
        2 => (2, "ISO"),
        3 => (3, "Windows"),
        4 => (4, "Custom"),
        _ => (5, "Unknown"),
    };
    labelled_string(dec_string(num, 1), name)
}

/// The meaning of an encoding ID under a platform.
pub open spec fn spec_encoding_name(platform_id: u16, encoding_id: u16) -> Option<Seq<char>> {
    match platform_id {
        0 => spec_unicode_encoding_label(encoding_id),
        1 => spec_macintosh_encoding_label(encoding_id),
        2 => spec_iso_encoding_label(encoding_id),
        3 => spec_windows_encoding_label(encoding_id),
        _ => None,
    }
}

pub open spec fn spec_encoding_label(platform_id: u16, encoding_id: u16) -> Option<Seq<char>> {
    match spec_encoding_name(platform_id, encoding_id) {
        Some(name) => Some(labelled(dec(encoding_id as nat, 1), name)),
        None => None,
    }
}

/// The encoding ID with its meaning, such as `1 (Unicode BMP)`, where the
/// platform defines one.
pub fn encoding_label(platform_id: u16, encoding_id: u16) -> (r: Option<String>)
    ensures
        opt_string(r) == spec_encoding_label(platform_id, encoding_id),
{
    let name = match platform_id {
        0 => unicode_encoding_label(encoding_id),
        1 => macintosh_encoding_label(encoding_id),
        2 => iso_encoding_label(encoding_id),
        3 => windows_encoding_label(encoding_id),
        _ => None,
    };
    match name {
        Some(n) => Some(labelled_string(dec_string(encoding_id as u64, 1), n)),
        None => None,
    }
}


pub open spec fn spec_format_codepoint(codepoint: u32) -> Seq<char> {
    "U+"@ + hex(codepoint as nat, 4)
}

/// A code point in `U+XXXX` notation.
pub fn format_codepoint(codepoint: u32) -> (r: String)
    ensures
        r@ == spec_format_codepoint(codepoint),
{
    let mut s = text("U+");
    let h = hex_string(codepoint as u64, 4);
    s.append(h.as_str());
    s
}

} // verus!

verus! {

/// The kinds of element in the arrays of a character-map subtable.
#[derive(Clone, Copy)]
pub enum Elem {
    U8,
    U16,
    I16,
    /// A group of code points mapped to consecutive glyphs.
    SequentialGroup,
    /// A group of code points mapped to one glyph.
    ConstantGroup,
    /// A variation selector record.
    VariationSelector,
}

pub open spec fn elem_size(k: Elem) -> int {
    match k {
        Elem::U8 => 1,
        Elem::U16 | Elem::I16 => 2,
        Elem::SequentialGroup | Elem::ConstantGroup => 12,
        Elem::VariationSelector => 11,
    }
}

/// A map group: its code point range shown as `U+` text, and its glyph,
/// each at its offset within the group.
pub open spec fn group_value(d: Seq<u8>, pos: int, glyph_key: Seq<char>) -> JsonV {
    JsonV::Obj(
        seq![
            ("startCharCode"@, sfield("uint32"@, JsonV::Str(spec_format_codepoint(u32_at(d, pos) as u32)), 0, 4)),
            ("endCharCode"@, sfield("uint32"@, JsonV::Str(spec_format_codepoint(u32_at(d, pos + 4) as u32)), 4, 4)),
            (glyph_key, sfield("uint32"@, JsonV::Num(u32_at(d, pos + 8)), 8, 4)),
        ],
    )
}

/// A map group shows its range in the order the group stores it: the
/// start code point is the uint32 at the group's first byte (offset 0),
/// the end code point the uint32 that follows (offset 4) and the glyph the
/// uint32 after that (offset 8). So the end shown for the group at `pos`
/// is what would be shown as the start of a group read four bytes later.
pub proof fn map_group_fields_read_their_bytes(d: Seq<u8>, pos: int)
    ensures
        ({
            let seq_g = elem_value(d, pos, Elem::SequentialGroup)->Obj_0;
            let const_g = elem_value(d, pos, Elem::ConstantGroup)->Obj_0;
            &&& seq_g.len() == 3 && const_g.len() == 3
            &&& seq_g[0] == ("startCharCode"@, sfield("uint32"@, JsonV::Str(spec_format_codepoint(u32_at(d, pos) as u32)), 0, 4))
            &&& seq_g[1] == ("endCharCode"@, sfield("uint32"@, JsonV::Str(spec_format_codepoint(u32_at(d, pos + 4) as u32)), 4, 4))
            &&& seq_g[2] == ("startGlyphID"@, sfield("uint32"@, JsonV::Num(u32_at(d, pos + 8)), 8, 4))
            &&& const_g[0] == seq_g[0]
            &&& const_g[1] == seq_g[1]
            &&& const_g[2] == ("glyphID"@, sfield("uint32"@, JsonV::Num(u32_at(d, pos + 8)), 8, 4))
            &&& seq_g[1].1->Obj_0[1] == elem_value(d, pos + 4, Elem::SequentialGroup)->Obj_0[0].1->Obj_0[1]
        }),
{
}

/// The value of the element of kind `k` at `pos`.
pub open spec fn elem_value(d: Seq<u8>, pos: int, k: Elem) -> JsonV {
    match k {
        Elem::U8 => JsonV::Num(d[pos] as int),
        Elem::U16 => JsonV::Num(u16_at(d, pos)),
        Elem::I16 => JsonV::Num(i16_at(d, pos)),
        Elem::SequentialGroup => group_value(d, pos, "startGlyphID"@),
        Elem::ConstantGroup => group_value(d, pos, "glyphID"@),
        Elem::VariationSelector => JsonV::Obj(
            seq![
                ("varSelector"@, sfield("uint24"@, JsonV::Str(spec_format_codepoint(u24_at(d, pos) as u32)), 0, 3)),
                ("defaultUvsOffset"@, sfield("Offset32"@, JsonV::Num(u32_at(d, pos + 3)), 3, 4)),
                ("nonDefaultUvsOffset"@, sfield("Offset32"@, JsonV::Num(u32_at(d, pos + 7)), 7, 4)),
            ],
        ),
    }
}

/// The `n` elements of kind `k` from `start` on.
pub open spec fn elems(d: Seq<u8>, start: int, n: int, k: Elem) -> Seq<JsonV> {
    Seq::new(n as nat, |i: int| elem_value(d, start + i * elem_size(k), k))
}

/// How many of `n` elements of `size` bytes from `start` on are read: all of
/// them, or none where they run past the data.
pub open spec fn present_count(len: int, start: int, n: int, size: int) -> int {
    if start + n * size <= len { n } else { 0 }
}

/// The length that each of the elements of an array is shown with.
pub open spec fn item_len(n: int, length: int) -> int {
    if n == 0 { 0 } else { length / n }
}

/// An array of values shown with its type, each element a described field
/// of the element type whose length is the array's length shared out.
pub open spec fn array_field(ty: Seq<char>, item_ty: Seq<char>, values: Seq<JsonV>, offset: int, length: int) -> JsonV {
    let il = item_len(values.len() as int, length);
    sfield(
        ty,
        JsonV::Arr(Seq::new(values.len(), |i: int| sfield(item_ty, values[i], offset + i * il, il))),
        offset,
        length,
    )
}

fn elem_size_exec(k: Elem) -> (r: usize)
    ensures
        r == elem_size(k),
{
    match k {
        Elem::U8 => 1,
        Elem::U16 | Elem::I16 => 2,
        Elem::SequentialGroup | Elem::ConstantGroup => 12,
        Elem::VariationSelector => 11,
    }
}

fn parse_group(d: &[u8], pos: usize, glyph_key: &str) -> (r: Json)
    requires
        pos + 12 <= d@.len(),
        small_len(d@.len() as int),
    ensures
        r.jv() == group_value(d@, pos as int, glyph_key@),
{
    let mut o = new_obj();
    push_entry(&mut o, "startCharCode", parsed_field("uint32", Json::Str(format_codepoint(be_u32(d, pos))), 0, 4));
    push_entry(&mut o, "endCharCode", parsed_field("uint32", Json::Str(format_codepoint(be_u32(d, pos + 4))), 4, 4));
    push_entry(&mut o, glyph_key, parsed_field("uint32", jnum(be_u32(d, pos + 8) as u64), 8, 4));
    assert(jv_entries(o@) =~= group_value(d@, pos as int, glyph_key@)->Obj_0);
    jobj(o)
}

/// A group of code points mapped to consecutive glyphs.
pub fn parse_sequential_map_group(d: &[u8], pos: usize) -> (r: Json)
    requires
        pos + 12 <= d@.len(),
        small_len(d@.len() as int),
    ensures
        r.jv() == elem_value(d@, pos as int, Elem::SequentialGroup),
{
    parse_group(d, pos, "startGlyphID")
}

/// A group of code points mapped to one glyph.
pub fn parse_constant_map_group(d: &[u8], pos: usize) -> (r: Json)
    requires
        pos + 12 <= d@.len(),
        small_len(d@.len() as int),
    ensures
        r.jv() == elem_value(d@, pos as int, Elem::ConstantGroup),
{
    parse_group(d, pos, "glyphID")
}

/// A variation selector record.
pub fn parse_variation_selector(d: &[u8], pos: usize) -> (r: Json)
    requires
        pos + 11 <= d@.len(),
        small_len(d@.len() as int),
    ensures
        r.jv() == elem_value(d@, pos as int, Elem::VariationSelector),
{
    let mut o = new_obj();
    push_entry(&mut o, "varSelector", parsed_field("uint24", Json::Str(format_codepoint(be_u24(d, pos))), 0, 3));
    push_entry(&mut o, "defaultUvsOffset", parsed_field("Offset32", jnum(be_u32(d, pos + 3) as u64), 3, 4));
    push_entry(&mut o, "nonDefaultUvsOffset", parsed_field("Offset32", jnum(be_u32(d, pos + 7) as u64), 7, 4));
    assert(jv_entries(o@) =~= elem_value(d@, pos as int, Elem::VariationSelector)->Obj_0);
    jobj(o)
}

fn elem_value_exec(d: &[u8], pos: usize, k: Elem) -> (r: Json)
    requires
        pos + elem_size(k) <= d@.len(),
        small_len(d@.len() as int),
    ensures
        r.jv() == elem_value(d@, pos as int, k),
{
    match k {
        Elem::U8 => jnum(d[pos] as u64),
        Elem::U16 => jnum(be_u16(d, pos) as u64),
        Elem::I16 => jint(be_i16(d, pos) as i64),
        Elem::SequentialGroup => parse_sequential_map_group(d, pos),
        Elem::ConstantGroup => parse_constant_map_group(d, pos),
        Elem::VariationSelector => parse_variation_selector(d, pos),
    }
}

/// Describes the `n` elements of kind `k` from `start` on as an array shown
/// at `offset` with `length`, each element taking an equal share.
pub fn parsed_array(
    d: &[u8],
    start: usize,
    n: usize,
    k: Elem,
    data_type: &str,
    item_type: &str,
    offset: usize,
    length: usize,
) -> (r: Json)
    requires
        n > 0 ==> start + n * elem_size(k) <= d@.len(),
        small_len(d@.len() as int),
        offset + length <= usize::MAX,
    ensures
        r.jv() == array_field(data_type@, item_type@, elems(d@, start as int, n as int, k), offset as int, length as int),
{
    let size = elem_size_exec(k);
    let il: usize = if n == 0 { 0 } else { length / n };
    let ghost values = elems(d@, start as int, n as int, k);
    let ghost want = Seq::new(n as nat, |i: int| sfield(item_type@, values[i], offset + i * il, il as int));
    proof {
        if n > 0 {
            let li = length as int;
            let ni = n as int;
            vstd::arithmetic::div_mod::lemma_fundamental_div_mod(li, ni);
            assert(ni * (li / ni) <= li) by (nonlinear_arith)
                requires ni > 0, li == ni * (li / ni) + li % ni, li % ni >= 0;
            assert(il as int == li / ni);
        }
    }
    let mut items = new_arr();
    let mut i: usize = 0;
    let mut pos: usize = start;
    let mut off: usize = offset;
    while i < n
        invariant
            i <= n,
            size == elem_size(k),
            size >= 1,
            n > 0 ==> start + n * size <= d@.len(),
            small_len(d@.len() as int),
            pos == start + i * size,
            n > 0 ==> n * il <= length,
            n == 0 ==> il == 0,
            off == offset + i * il,
            offset + length <= usize::MAX,
            values == elems(d@, start as int, n as int, k),
            want == Seq::new(n as nat, |i: int| sfield(item_type@, values[i], offset + i * il, il as int)),
            jv_seq(items@) == want.take(i as int),
        decreases n - i,
    {
        assert(pos + size <= start + n * size && pos + size == start + (i + 1) * size) by (nonlinear_arith)
            requires pos == start + i * size, i < n, size >= 1;
        assert(off + il <= offset + length && off + il == offset + (i + 1) * il) by (nonlinear_arith)
            requires off == offset + i * il, i < n, n * il <= length, il >= 0;
        let v = elem_value_exec(d, pos, k);
        push_item(&mut items, parsed_field(item_type, v, off, il));
        assert(want.take(i + 1) =~= want.take(i as int).push(want[i as int]));
        i = i + 1;
        pos = pos + size;
        off = off + il;
    }
    assert(want.take(n as int) =~= want);
    assert(il == item_len(values.len() as int, length as int));
    parsed_field(data_type, jarr(items), offset, length)
}

} // verus!

verus! {

/// A 16-bit header field of a subtable at `o`.
pub open spec fn field16(d: Seq<u8>, rel: int, o: int) -> JsonV {
    sfield("uint16"@, JsonV::Num(u16_at(d, rel)), o + rel, 2)
}

/// A 32-bit header field of a subtable at `o`.
pub open spec fn field32(d: Seq<u8>, rel: int, o: int) -> JsonV {
    sfield("uint32"@, JsonV::Num(u32_at(d, rel)), o + rel, 4)
}

/// A reserved 16-bit field, shown as 0.
pub open spec fn zero16(at: int) -> JsonV {
    sfield("uint16"@, JsonV::Num(0), at, 2)
}

/// A subtable described: its fields, shown at its offset with the length
/// its header states.
pub open spec fn subtable_field(o: int, length: int, fields: Seq<(Seq<char>, JsonV)>) -> JsonV {
    sfield("CmapSubtable"@, JsonV::Obj(fields), o, length)
}

/// A subtable that could not be read, shown with why.
pub open spec fn subtable_error(o: int, message: Seq<char>) -> JsonV {
    sfield("CmapSubtable"@, JsonV::Str("<"@ + message + ">"@), o, 0)
}

/// The least size of a subtable of each format that is described, or
/// `None` for a format that is not.
pub open spec fn format_min_size(format: int) -> Option<int> {
    if format == 0 {
        Some(262)
    } else if format == 2 {
        Some(518)
    } else if format == 4 {
        Some(14)
    } else if format == 6 {
        Some(10)
    } else if format == 8 {
        Some(8208)
    } else if format == 10 {
        Some(20)
    } else if format == 12 || format == 13 {
        Some(16)
    } else if format == 14 {
        Some(10)
    } else {
        None
    }
}

pub open spec fn format0_fields(d: Seq<u8>, o: int) -> Seq<(Seq<char>, JsonV)> {
    seq![
        ("format"@, field16(d, 0, o)),
        ("length"@, field16(d, 2, o)),
        ("language"@, field16(d, 4, o)),
        ("glyphIdArray"@, array_field("uint8[]"@, "uint8"@, elems(d, 6, 256, Elem::U8), o + 6, 256)),
    ]
}

pub open spec fn format2_fields(d: Seq<u8>, o: int) -> Seq<(Seq<char>, JsonV)> {
    seq![
        ("format"@, field16(d, 0, o)),
        ("length"@, field16(d, 2, o)),
        ("language"@, field16(d, 4, o)),
        ("subHeaderKeys"@, array_field("uint16[]"@, "uint16"@, elems(d, 6, 256, Elem::U16), o + 6, 512)),
    ]
}

/// A segment array of format 4: its values, where they lie within the data.
pub open spec fn segment_values(d: Seq<u8>, start: int, s: int, k: Elem) -> Seq<JsonV> {
    elems(d, start, present_count(d.len() as int, start, s, 2), k)
}

pub open spec fn format4_fields(d: Seq<u8>, o: int) -> Seq<(Seq<char>, JsonV)> {
    let s = u16_at(d, 6) / 2;
    let g = if 16 + 8 * s <= d.len() { (d.len() - (16 + 8 * s)) / 2 } else { 0 };
    seq![
        ("format"@, field16(d, 0, o)),
        ("length"@, field16(d, 2, o)),
        ("language"@, field16(d, 4, o)),
        ("segCountX2"@, field16(d, 6, o)),
        ("searchRange"@, field16(d, 8, o)),
        ("entrySelector"@, field16(d, 10, o)),
        ("rangeShift"@, field16(d, 12, o)),
        ("endCode"@, array_field("uint16[]"@, "uint16"@, segment_values(d, 14, s, Elem::U16), o + 14, 2 * s)),
        ("reservedPad"@, zero16(o + 14 + 2 * s)),
        ("startCode"@, array_field("uint16[]"@, "uint16"@, segment_values(d, 16 + 2 * s, s, Elem::U16), o + 16 + 2 * s, 2 * s)),
        ("idDelta"@, array_field("int16[]"@, "int16"@, segment_values(d, 16 + 4 * s, s, Elem::I16), o + 16 + 4 * s, 2 * s)),
        ("idRangeOffsets"@, array_field("uint16[]"@, "uint16"@, segment_values(d, 16 + 6 * s, s, Elem::U16), o + 16 + 6 * s, 2 * s)),
        ("glyphIdArray"@, array_field("uint16[]"@, "uint16"@, elems(d, 16 + 8 * s, g, Elem::U16), o + 16 + 8 * s, 2 * g)),
    ]
}

/// A format 4 subtable shows its header fields at 0 to 12, then its segment
/// arrays in the order they are stored: the end codes from 14, a reserved
/// pad, the start codes after the pad, then the deltas and the range
/// offsets; element `k` of each array is the 16-bit number read at its own
/// offset (`2 * k` past the array's start), the deltas signed.
pub proof fn format4_arrays_follow_the_layout(d: Seq<u8>, o: int, k: int)
    requires
        u16_at(d, 0) == 4,
        16 + 8 * (u16_at(d, 6) / 2) <= d.len(),
        0 <= k < u16_at(d, 6) / 2,
    ensures
        ({
            let s = u16_at(d, 6) / 2;
            let e = format_value(d, o)->Obj_0[1].1->Obj_0;
            let item = |a: JsonV| a->Obj_0[1].1->Arr_0[k];
            &&& e[0] == ("format"@, sfield("uint16"@, JsonV::Num(4), o, 2))
            &&& e[1] == ("length"@, sfield("uint16"@, JsonV::Num(u16_at(d, 2)), o + 2, 2))
            &&& e[2] == ("language"@, sfield("uint16"@, JsonV::Num(u16_at(d, 4)), o + 4, 2))
            &&& e[3] == ("segCountX2"@, sfield("uint16"@, JsonV::Num(u16_at(d, 6)), o + 6, 2))
            &&& e[7].0 == "endCode"@
            &&& item(e[7].1) == sfield("uint16"@, JsonV::Num(u16_at(d, 14 + 2 * k)), o + 14 + 2 * k, 2)
            &&& e[8] == ("reservedPad"@, sfield("uint16"@, JsonV::Num(0), o + 14 + 2 * s, 2))
            &&& e[9].0 == "startCode"@
            &&& item(e[9].1) == sfield("uint16"@, JsonV::Num(u16_at(d, 16 + 2 * s + 2 * k)), o + 16 + 2 * s + 2 * k, 2)
            &&& e[10].0 == "idDelta"@
            &&& item(e[10].1) == sfield("int16"@, JsonV::Num(i16_at(d, 16 + 4 * s + 2 * k)), o + 16 + 4 * s + 2 * k, 2)
            &&& e[11].0 == "idRangeOffsets"@
            &&& item(e[11].1) == sfield("uint16"@, JsonV::Num(u16_at(d, 16 + 6 * s + 2 * k)), o + 16 + 6 * s + 2 * k, 2)
        }),
{
    let s = u16_at(d, 6) / 2;
    assert(s > 0);
    assert(item_len(s, 2 * s) == 2) by (nonlinear_arith)
        requires s > 0, item_len(s, 2 * s) == (2 * s) / s;
    assert(present_count(d.len() as int, 14, s, 2) == s);
    assert(present_count(d.len() as int, 16 + 2 * s, s, 2) == s);
    assert(present_count(d.len() as int, 16 + 4 * s, s, 2) == s);
    assert(present_count(d.len() as int, 16 + 6 * s, s, 2) == s);
}

pub open spec fn format6_fields(d: Seq<u8>, o: int) -> Seq<(Seq<char>, JsonV)> {
    let g = present_count(d.len() as int, 10, u16_at(d, 8), 2);
    seq![
        ("format"@, field16(d, 0, o)),
        ("length"@, field16(d, 2, o)),
        ("language"@, field16(d, 4, o)),
        ("firstCode"@, field16(d, 6, o)),
        ("entryCount"@, field16(d, 8, o)),
        ("glyphIdArray"@, array_field("uint16[]"@, "uint16"@, elems(d, 10, g, Elem::U16), o + 10, 2 * g)),
    ]
}

pub open spec fn format8_fields(d: Seq<u8>, o: int) -> Seq<(Seq<char>, JsonV)> {
    let g = present_count(d.len() as int, 8208, u32_at(d, 8204), 12);
    seq![
        ("format"@, field16(d, 0, o)),
        ("reserved"@, zero16(o + 2)),
        ("length"@, field32(d, 4, o)),
        ("language"@, field32(d, 8, o)),
        ("is32"@, array_field("uint8[]"@, "uint8"@, elems(d, 12, 8192, Elem::U8), o + 12, 8192)),
        ("numGroups"@, field32(d, 8204, o)),
        (
            "groups"@,
            array_field(
                "SequentialMapGroup[]"@,
                "SequentialMapGroup"@,
                elems(d, 8208, g, Elem::SequentialGroup),
                o + 8212,
                12 * g,
            ),
        ),
    ]
}

pub open spec fn format10_fields(d: Seq<u8>, o: int) -> Seq<(Seq<char>, JsonV)> {
    let g = present_count(d.len() as int, 20, u32_at(d, 16), 2);
    seq![
        ("format"@, field16(d, 0, o)),
        ("reserved"@, zero16(o + 2)),
        ("length"@, field32(d, 4, o)),
        ("language"@, field32(d, 8, o)),
        ("startCharCode"@, field32(d, 12, o)),
        ("numChars"@, field32(d, 16, o)),
        ("glyphIdArray"@, array_field("uint16[]"@, "uint16"@, elems(d, 20, g, Elem::U16), o + 20, 2 * g)),
    ]
}

/// Formats 12 and 13: a header and map groups of the given kind.
pub open spec fn groups_format_fields(d: Seq<u8>, o: int, ty: Seq<char>, item_ty: Seq<char>, k: Elem) -> Seq<(Seq<char>, JsonV)> {
    let g = present_count(d.len() as int, 16, u32_at(d, 12), 12);
    seq![
        ("format"@, field16(d, 0, o)),
        ("reserved"@, zero16(o + 2)),
        ("length"@, field32(d, 4, o)),
        ("language"@, field32(d, 8, o)),
        ("numGroups"@, field32(d, 12, o)),
        ("groups"@, array_field(ty, item_ty, elems(d, 16, g, k), o + 16, 12 * g)),
    ]
}

pub open spec fn format14_fields(d: Seq<u8>, o: int) -> Seq<(Seq<char>, JsonV)> {
    let g = present_count(d.len() as int, 10, u32_at(d, 6), 11);
    seq![
        ("format"@, field16(d, 0, o)),
        ("length"@, field32(d, 2, o)),
        ("numVarSelectorRecords"@, field32(d, 6, o)),
        (
            "varSelector"@,
            array_field("VariationSelector[]"@, "VariationSelector"@, elems(d, 10, g, Elem::VariationSelector), o + 10, 11 * g),
        ),
    ]
}

/// A subtable of a described format whose data `d` is long enough.
pub open spec fn format_value(d: Seq<u8>, o: int) -> JsonV {
    let format = u16_at(d, 0);
    if format == 0 {
        subtable_field(o, u16_at(d, 2), format0_fields(d, o))
    } else if format == 2 {
        subtable_field(o, u16_at(d, 2), format2_fields(d, o))
    } else if format == 4 {
        subtable_field(o, u16_at(d, 2), format4_fields(d, o))
    } else if format == 6 {
        subtable_field(o, u16_at(d, 2), format6_fields(d, o))
    } else if format == 8 {
        subtable_field(o, u32_at(d, 4), format8_fields(d, o))
    } else if format == 10 {
        subtable_field(o, u32_at(d, 4), format10_fields(d, o))
    } else if format == 12 {
        subtable_field(o, u32_at(d, 4), groups_format_fields(d, o, "SequentialMapGroup[]"@, "SequentialMapGroup"@, Elem::SequentialGroup))
    } else if format == 13 {
        subtable_field(o, u32_at(d, 4), groups_format_fields(d, o, "ConstantMapGroup[]"@, "ConstantMapGroup"@, Elem::ConstantGroup))
    } else {
        subtable_field(o, u32_at(d, 2), format14_fields(d, o))
    }
}

/// The subtable at offset `o` of the character-map table `c`, described: a
/// null or outlying offset, data too short for its format, and a format
/// that is not described each give the error read-fonts reports.
pub open spec fn spec_subtable(c: Seq<u8>, o: int) -> JsonV {
    if o == 0 {
        subtable_error(o, "An offset was unexpectedly null"@)
    } else if o + 2 > c.len() {
        subtable_error(o, crate::font::out_of_bounds())
    } else {
        let d = c.subrange(o, c.len() as int);
        match format_min_size(u16_at(d, 0)) {
            None => subtable_error(o, "Invalid format '"@ + dec(u16_at(d, 0) as nat, 1) + "'"@),
            Some(min) => if d.len() < min {
                subtable_error(o, crate::font::out_of_bounds())
            } else {
                format_value(d, o)
            },
        }
    }
}

} // verus!

verus! {

fn hfield16(d: &[u8], rel: usize, o: usize) -> (r: Json)
    requires
        rel + 2 <= d@.len(),
        small_len(o + d@.len()),
    ensures
        r.jv() == field16(d@, rel as int, o as int),
{
    parsed_field("uint16", jnum(be_u16(d, rel) as u64), o + rel, 2)
}

fn hfield32(d: &[u8], rel: usize, o: usize) -> (r: Json)
    requires
        rel + 4 <= d@.len(),
        small_len(o + d@.len()),
    ensures
        r.jv() == field32(d@, rel as int, o as int),
{
    parsed_field("uint32", jnum(be_u32(d, rel) as u64), o + rel, 4)
}

fn format0_entries(d: &[u8], o: usize) -> (r: Vec<(String, Json)>)
    requires
        d@.len() >= 262,
        small_len(o + d@.len()),
    ensures
        jv_entries(r@) == format0_fields(d@, o as int),
{
    let mut f = new_obj();
    push_entry(&mut f, "format", hfield16(d, 0, o));
    push_entry(&mut f, "length", hfield16(d, 2, o));
    push_entry(&mut f, "language", hfield16(d, 4, o));
    push_entry(&mut f, "glyphIdArray", parsed_array(d, 6, 256, Elem::U8, "uint8[]", "uint8", o + 6, 256));
    assert(jv_entries(f@) =~= format0_fields(d@, o as int));
    f
}

fn format2_entries(d: &[u8], o: usize) -> (r: Vec<(String, Json)>)
    requires
        d@.len() >= 518,
        small_len(o + d@.len()),
    ensures
        jv_entries(r@) == format2_fields(d@, o as int),
{
    let mut f = new_obj();
    push_entry(&mut f, "format", hfield16(d, 0, o));
    push_entry(&mut f, "length", hfield16(d, 2, o));
    push_entry(&mut f, "language", hfield16(d, 4, o));
    push_entry(&mut f, "subHeaderKeys", parsed_array(d, 6, 256, Elem::U16, "uint16[]", "uint16", o + 6, 512));
    assert(jv_entries(f@) =~= format2_fields(d@, o as int));
    f
}

/// A segment array of format 4, described.
fn segment_array(d: &[u8], start: usize, s: usize, k: Elem, ty: &str, item_ty: &str, o: usize) -> (r: Json)
    requires
        s <= 0x8000,
        start <= 16 + 6 * s,
        elem_size(k) == 2,
        small_len(o + d@.len()),
    ensures
        r.jv() == array_field(ty@, item_ty@, segment_values(d@, start as int, s as int, k), o + start, 2 * s),
{
    let n: usize = if start + 2 * s <= d.len() { s } else { 0 };
    assert(n * elem_size(k) == 2 * n);
    parsed_array(d, start, n, k, ty, item_ty, o + start, 2 * s)
}

#[verifier::rlimit(50)]
fn format4_entries(d: &[u8], o: usize) -> (r: Vec<(String, Json)>)
    requires
        d@.len() >= 14,
        small_len(o + d@.len()),
    ensures
        jv_entries(r@) == format4_fields(d@, o as int),
{
    let s = (be_u16(d, 6) / 2) as usize;
    let g: usize = if 16 + 8 * s <= d.len() { (d.len() - (16 + 8 * s)) / 2 } else { 0 };
    assert(g * elem_size(Elem::U16) == 2 * g);
    let mut f = new_obj();
    push_entry(&mut f, "format", hfield16(d, 0, o));
    push_entry(&mut f, "length", hfield16(d, 2, o));
    push_entry(&mut f, "language", hfield16(d, 4, o));
    push_entry(&mut f, "segCountX2", hfield16(d, 6, o));
    push_entry(&mut f, "searchRange", hfield16(d, 8, o));
    push_entry(&mut f, "entrySelector", hfield16(d, 10, o));
    push_entry(&mut f, "rangeShift", hfield16(d, 12, o));
    push_entry(&mut f, "endCode", segment_array(d, 14, s, Elem::U16, "uint16[]", "uint16", o));
    push_entry(&mut f, "reservedPad", parsed_field("uint16", jnum(0), o + 14 + 2 * s, 2));
    push_entry(&mut f, "startCode", segment_array(d, 16 + 2 * s, s, Elem::U16, "uint16[]", "uint16", o));
    push_entry(&mut f, "idDelta", segment_array(d, 16 + 4 * s, s, Elem::I16, "int16[]", "int16", o));
    push_entry(&mut f, "idRangeOffsets", segment_array(d, 16 + 6 * s, s, Elem::U16, "uint16[]", "uint16", o));
    push_entry(&mut f, "glyphIdArray", parsed_array(d, 16 + 8 * s, g, Elem::U16, "uint16[]", "uint16", o + 16 + 8 * s, 2 * g));
    assert(jv_entries(f@) =~= format4_fields(d@, o as int));
    f
}

fn format6_entries(d: &[u8], o: usize) -> (r: Vec<(String, Json)>)
    requires
        d@.len() >= 10,
        small_len(o + d@.len()),
    ensures
        jv_entries(r@) == format6_fields(d@, o as int),
{
    let n = be_u16(d, 8) as usize;
    let g: usize = if 10 + 2 * n <= d.len() { n } else { 0 };
    let mut f = new_obj();
    push_entry(&mut f, "format", hfield16(d, 0, o));
    push_entry(&mut f, "length", hfield16(d, 2, o));
    push_entry(&mut f, "language", hfield16(d, 4, o));
    push_entry(&mut f, "firstCode", hfield16(d, 6, o));
    push_entry(&mut f, "entryCount", hfield16(d, 8, o));
    push_entry(&mut f, "glyphIdArray", parsed_array(d, 10, g, Elem::U16, "uint16[]", "uint16", o + 10, 2 * g));
    assert(jv_entries(f@) =~= format6_fields(d@, o as int));
    f
}

/// How many of `n` elements of `size` bytes from `start` on are read.
fn count_present(len: usize, start: usize, n: u32, size: usize) -> (r: usize)
    requires
        start <= len,
        1 <= size <= 12,
    ensures
        r == present_count(len as int, start as int, n as int, size as int),
        start + r * size <= len,
{
    let room = (len - start) / size;
    if (n as usize) <= room {
        proof {
            let ri = (len - start) as int;
            let si = size as int;
            vstd::arithmetic::div_mod::lemma_fundamental_div_mod(ri, si);
            assert(n * si <= ri) by (nonlinear_arith)
                requires n <= ri / si, si > 0, ri == si * (ri / si) + ri % si, ri % si >= 0;
        }
        n as usize
    } else {
        proof {
            let ri = (len - start) as int;
            let si = size as int;
            vstd::arithmetic::div_mod::lemma_fundamental_div_mod(ri, si);
            assert(n * si > ri) by (nonlinear_arith)
                requires n > ri / si, si > 0, ri == si * (ri / si) + ri % si, ri % si < si;
        }
        0
    }
}

fn format8_entries(d: &[u8], o: usize) -> (r: Vec<(String, Json)>)
    requires
        d@.len() >= 8208,
        small_len(o + d@.len()),
    ensures
        jv_entries(r@) == format8_fields(d@, o as int),
{
    let g = count_present(d.len(), 8208, be_u32(d, 8204), 12);
    let mut f = new_obj();
    push_entry(&mut f, "format", hfield16(d, 0, o));
    push_entry(&mut f, "reserved", parsed_field("uint16", jnum(0), o + 2, 2));
    push_entry(&mut f, "length", hfield32(d, 4, o));
    push_entry(&mut f, "language", hfield32(d, 8, o));
    push_entry(&mut f, "is32", parsed_array(d, 12, 8192, Elem::U8, "uint8[]", "uint8", o + 12, 8192));
    push_entry(&mut f, "numGroups", hfield32(d, 8204, o));
    push_entry(
        &mut f,
        "groups",
        parsed_array(d, 8208, g, Elem::SequentialGroup, "SequentialMapGroup[]", "SequentialMapGroup", o + 8212, 12 * g),
    );
    assert(jv_entries(f@) =~= format8_fields(d@, o as int));
    f
}

fn format10_entries(d: &[u8], o: usize) -> (r: Vec<(String, Json)>)
    requires
        d@.len() >= 20,
        small_len(o + d@.len()),
    ensures
        jv_entries(r@) == format10_fields(d@, o as int),
{
    let g = count_present(d.len(), 20, be_u32(d, 16), 2);
    let mut f = new_obj();
    push_entry(&mut f, "format", hfield16(d, 0, o));
    push_entry(&mut f, "reserved", parsed_field("uint16", jnum(0), o + 2, 2));
    push_entry(&mut f, "length", hfield32(d, 4, o));
    push_entry(&mut f, "language", hfield32(d, 8, o));
    push_entry(&mut f, "startCharCode", hfield32(d, 12, o));
    push_entry(&mut f, "numChars", hfield32(d, 16, o));
    push_entry(&mut f, "glyphIdArray", parsed_array(d, 20, g, Elem::U16, "uint16[]", "uint16", o + 20, 2 * g));
    assert(jv_entries(f@) =~= format10_fields(d@, o as int));
    f
}

fn groups_format_entries(d: &[u8], o: usize, ty: &str, item_ty: &str, k: Elem) -> (r: Vec<(String, Json)>)
    requires
        d@.len() >= 16,
        small_len(o + d@.len()),
        elem_size(k) == 12,
    ensures
        jv_entries(r@) == groups_format_fields(d@, o as int, ty@, item_ty@, k),
{
    let g = count_present(d.len(), 16, be_u32(d, 12), 12);
    let mut f = new_obj();
    push_entry(&mut f, "format", hfield16(d, 0, o));
    push_entry(&mut f, "reserved", parsed_field("uint16", jnum(0), o + 2, 2));
    push_entry(&mut f, "length", hfield32(d, 4, o));
    push_entry(&mut f, "language", hfield32(d, 8, o));
    push_entry(&mut f, "numGroups", hfield32(d, 12, o));
    push_entry(&mut f, "groups", parsed_array(d, 16, g, k, ty, item_ty, o + 16, 12 * g));
    assert(jv_entries(f@) =~= groups_format_fields(d@, o as int, ty@, item_ty@, k));
    f
}

fn format14_entries(d: &[u8], o: usize) -> (r: Vec<(String, Json)>)
    requires
        d@.len() >= 10,
        small_len(o + d@.len()),
    ensures
        jv_entries(r@) == format14_fields(d@, o as int),
{
    let g = count_present(d.len(), 10, be_u32(d, 6), 11);
    let mut f = new_obj();
    push_entry(&mut f, "format", hfield16(d, 0, o));
    push_entry(&mut f, "length", hfield32(d, 2, o));
    push_entry(&mut f, "numVarSelectorRecords", hfield32(d, 6, o));
    push_entry(
        &mut f,
        "varSelector",
        parsed_array(d, 10, g, Elem::VariationSelector, "VariationSelector[]", "VariationSelector", o + 10, 11 * g),
    );
    assert(jv_entries(f@) =~= format14_fields(d@, o as int));
    f
}

fn subtable_error_value(o: usize, message: &str) -> (r: Json)
    ensures
        r.jv() == subtable_error(o as int, message@),
{
    let mut s = text("<");
    s.append(message);
    s.append(">");
    proof {
        reveal_strlit("<");
    }
    parsed_field("CmapSubtable", Json::Str(s), o, 0)
}

/// Describes the subtable at offset `o` of the character-map table `c`.
pub fn parse_subtable(c: &[u8], o: usize) -> (r: Json)
    requires
        small_len(c@.len() as int),
    ensures
        r.jv() == spec_subtable(c@, o as int),
{
    if o == 0 {
        return subtable_error_value(o, "An offset was unexpectedly null");
    }
    if o > c.len() || c.len() - o < 2 {
        return subtable_error_value(o, "An offset was out of bounds");
    }
    let d = slice_subrange(c, o, c.len());
    let format = be_u16(d, 0);
    let min: usize = if format == 0 {
        262
    } else if format == 2 {
        518
    } else if format == 4 {
        14
    } else if format == 6 {
        10
    } else if format == 8 {
        8208
    } else if format == 10 {
        20
    } else if format == 12 || format == 13 {
        16
    } else if format == 14 {
        10
    } else {
        let mut m = text("Invalid format '");
        let n = dec_string(format as u64, 1);
        m.append(n.as_str());
        m.append("'");
        let mut s = text("<");
        s.append(m.as_str());
        s.append(">");
        return parsed_field("CmapSubtable", Json::Str(s), o, 0);
    };
    if d.len() < min {
        return subtable_error_value(o, "An offset was out of bounds");
    }
    if format == 0 {
        parsed_field("CmapSubtable", jobj(format0_entries(d, o)), o, be_u16(d, 2) as usize)
    } else if format == 2 {
        parsed_field("CmapSubtable", jobj(format2_entries(d, o)), o, be_u16(d, 2) as usize)
    } else if format == 4 {
        parsed_field("CmapSubtable", jobj(format4_entries(d, o)), o, be_u16(d, 2) as usize)
    } else if format == 6 {
        parsed_field("CmapSubtable", jobj(format6_entries(d, o)), o, be_u16(d, 2) as usize)
    } else if format == 8 {
        parsed_field("CmapSubtable", jobj(format8_entries(d, o)), o, be_u32(d, 4) as usize)
    } else if format == 10 {
        parsed_field("CmapSubtable", jobj(format10_entries(d, o)), o, be_u32(d, 4) as usize)
    } else if format == 12 {
        let f = groups_format_entries(d, o, "SequentialMapGroup[]", "SequentialMapGroup", Elem::SequentialGroup);
        parsed_field("CmapSubtable", jobj(f), o, be_u32(d, 4) as usize)
    } else if format == 13 {
        let f = groups_format_entries(d, o, "ConstantMapGroup[]", "ConstantMapGroup", Elem::ConstantGroup);
        parsed_field("CmapSubtable", jobj(f), o, be_u32(d, 4) as usize)
    } else {
        parsed_field("CmapSubtable", jobj(format14_entries(d, o)), o, be_u32(d, 2) as usize)
    }
}

} // verus!

verus! {

/// Encoding record `i`, described, with the subtable it points at.
pub open spec fn encoding_record_value(c: Seq<u8>, i: int) -> JsonV {
    let b = 4 + 8 * i;
    let p = u16_at(c, b) as u16;
    let e = u16_at(c, b + 2) as u16;
    let off = u32_at(c, b + 4);
    JsonV::Obj(
        seq![
            ("platformID"@, sfield("PlatformId"@, JsonV::Str(spec_format_platform_id(p)), b, 2)),
            ("encodingID"@, opt_field("uint16"@, JsonV::Num(e as int), b + 2, 2, spec_encoding_label(p, e))),
            ("subtableOffset"@, sfield("Offset32"@, JsonV::Num(off), b + 4, 4)),
            ("subtable"@, spec_subtable(c, off)),
        ],
    )
}

/// An encoding record shows its platform at 0, its encoding at 2 and its
/// subtable's offset at 4, each read at that offset of the record's 8 bytes,
/// and then the subtable found at that offset.
pub proof fn encoding_record_fields_read_their_bytes(c: Seq<u8>, i: int)
    ensures
        ({
            let b = 4 + 8 * i;
            let e = encoding_record_value(c, i)->Obj_0;
            &&& e.len() == 4
            &&& e[0] == ("platformID"@, sfield("PlatformId"@, JsonV::Str(spec_format_platform_id(u16_at(c, b) as u16)), b, 2))
            &&& e[1].0 == "encodingID"@
            &&& e[1].1->Obj_0[1].1 == JsonV::Num(u16_at(c, b + 2))
            &&& e[1].1->Obj_0[2].1 == JsonV::Num(b + 2)
            &&& e[2] == ("subtableOffset"@, sfield("Offset32"@, JsonV::Num(u32_at(c, b + 4)), b + 4, 4))
            &&& e[3] == ("subtable"@, spec_subtable(c, u32_at(c, b + 4)))
        }),
{
    assert(0 <= u16_at(c, 4 + 8 * i + 2) < 0x10000);
}

/// The character-map table, described: its header and each encoding record
/// with its subtable. Tables shorter than the header are refused.
pub open spec fn spec_parse_table(c: Seq<u8>) -> Result<JsonV, Seq<char>> {
    if c.len() < 4 {
        Err(crate::font::out_of_bounds())
    } else {
        let k = present_count(c.len() as int, 4, u16_at(c, 2), 8);
        Ok(
            JsonV::Obj(
                seq![
                    ("version"@, sfield("uint16"@, JsonV::Num(u16_at(c, 0)), 0, 2)),
                    ("numTables"@, sfield("uint16"@, JsonV::Num(u16_at(c, 2)), 2, 2)),
                    (
                        "encodingRecords"@,
                        sfield(
                            "EncodingRecord[]"@,
                            JsonV::Arr(Seq::new(k as nat, |i: int| encoding_record_value(c, i))),
                            4,
                            8 * k,
                        ),
                    ),
                ],
            ),
        )
    }
}

/// Describes encoding record `i` and its subtable.
pub fn parse_encoding_record(c: &[u8], i: usize) -> (r: Json)
    requires
        4 + 8 * i + 8 <= c@.len(),
        small_len(c@.len() as int),
    ensures
        r.jv() == encoding_record_value(c@, i as int),
{
    let b = 4 + 8 * i;
    let p = be_u16(c, b);
    let e = be_u16(c, b + 2);
    let off = be_u32(c, b + 4);
    let mut o = new_obj();
    push_entry(&mut o, "platformID", parsed_field("PlatformId", Json::Str(format_platform_id(p)), b, 2));
    push_entry(&mut o, "encodingID", field_with_summary("uint16", jnum(e as u64), b + 2, 2, encoding_label(p, e)));
    push_entry(&mut o, "subtableOffset", parsed_field("Offset32", jnum(off as u64), b + 4, 4));
    push_entry(&mut o, "subtable", parse_subtable(c, off as usize));
    assert(jv_entries(o@) =~= encoding_record_value(c@, i as int)->Obj_0);
    jobj(o)
}

/// The character-map table, described.
pub fn parse_table(c: &[u8]) -> (r: Result<Json, String>)
    requires
        small_len(c@.len() as int),
    ensures
        parsed_view(r) == spec_parse_table(c@),
{
    if c.len() < 4 {
        return Err(text("An offset was out of bounds"));
    }
    let n = be_u16(c, 2);
    let k = count_present(c.len(), 4, n as u32, 8);
    let ghost want = Seq::new(k as nat, |i: int| encoding_record_value(c@, i));
    let mut records = new_arr();
    let mut i: usize = 0;
    while i < k
        invariant
            i <= k,
            4 + k * 8 <= c@.len(),
            small_len(c@.len() as int),
            want == Seq::new(k as nat, |i: int| encoding_record_value(c@, i)),
            jv_seq(records@) == want.take(i as int),
        decreases k - i,
    {
        push_item(&mut records, parse_encoding_record(c, i));
        assert(want.take(i + 1) =~= want.take(i as int).push(want[i as int]));
        i = i + 1;
    }
    assert(want.take(k as int) =~= want);
    let mut o = new_obj();
    push_entry(&mut o, "version", parsed_field("uint16", jnum(be_u16(c, 0) as u64), 0, 2));
    push_entry(&mut o, "numTables", parsed_field("uint16", jnum(n as u64), 2, 2));
    push_entry(&mut o, "encodingRecords", parsed_field("EncodingRecord[]", jarr(records), 4, 8 * k));
    assert(jv_entries(o@) =~= spec_parse_table(c@)->Ok_0->Obj_0);
    Ok(jobj(o))
}

pub open spec fn table_tag() -> Seq<u8> {
    seq![99u8, 109u8, 97u8, 112u8]
}

/// The `cmap` table of a font, described.
pub open spec fn spec_parse(font: Seq<u8>) -> Result<JsonV, Seq<char>> {
    match crate::font::spec_load(font, table_tag()) {
        Err(e) => Err(e),
        Ok(t) => spec_parse_table(t),
    }
}

/// Describes the `cmap` table of a font.
pub fn parse(font: &[u8]) -> (r: Result<Json, String>)
    requires
        small_len(font@.len() as int),
    ensures
        parsed_view(r) == spec_parse(font@),
{
    let tag: Vec<u8> = vec![99u8, 109u8, 97u8, 112u8];
    assert(tag@ =~= table_tag());
    match crate::font::load_table(font, tag.as_slice()) {
        Err(e) => Err(e),
        Ok(t) => parse_table(t.as_slice()),
    }
}

} // verus!
