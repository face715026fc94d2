use vstd::prelude::*;
use vstd::slice::slice_subrange;
use crate::json::text;
use crate::reader::{be_u16, be_u32, small_len, u16_at, u32_at};
use crate::text::{hex, hex_0x, hex_0x_string, hex_string};
use vstd::string::StringExecFns;

verus! {

/// The message of an offset that points outside the data.
pub open spec fn out_of_bounds() -> Seq<char> {
    "An offset was out of bounds"@
}

/// The sfnt versions of a single font: TrueType, 'true' and CFF ('OTTO').
pub open spec fn known_sfnt_version(v: int) -> bool {
    v == 0x0001_0000 || v == 0x7472_7565 || v == 0x4F54_544F
}

/// Why the font data does not open as a single font, if it does not: it is
/// shorter than a table directory, or its sfnt version is unknown.
pub open spec fn open_error(font: Seq<u8>) -> Option<Seq<char>> {
    if font.len() < 12 {
        Some(out_of_bounds())
    } else if !known_sfnt_version(u32_at(font, 0)) {
        Some("Invalid sfnt version "@ + hex_0x(u32_at(font, 0) as nat, 8))
    } else {
        None
    }
}

/// The number of table records the directory holds: none where the records
/// would run past the data.
pub open spec fn record_count(font: Seq<u8>) -> nat {
    if font.len() >= 12 && 12 + 16 * u16_at(font, 4) <= font.len() {
        u16_at(font, 4) as nat
    } else {
        0
    }
}

/// The index of the first table record with `tag`, from `i` on.
pub open spec fn find_record(font: Seq<u8>, tag: Seq<u8>, i: nat) -> Option<nat>
    decreases record_count(font) - i,
{
    if i >= record_count(font) {
        None
    } else if font.subrange(12 + 16 * i as int, 16 + 16 * i as int) == tag {
        Some(i)
    } else {
        find_record(font, tag, i + 1)
    }
}

/// The data of the table with `tag`: the bytes its record points at, where
/// its offset is not zero and the bytes lie within the font.
pub open spec fn table_slice(font: Seq<u8>, tag: Seq<u8>) -> Option<Seq<u8>> {
    match find_record(font, tag, 0) {
        None => None,
        Some(i) => {
            let offset = u32_at(font, 12 + 16 * i as int + 8);
            let length = u32_at(font, 12 + 16 * i as int + 12);
            if offset == 0 || offset + length > font.len() {
                None
            } else {
                Some(font.subrange(offset, offset + length))
            }
        },
    }
}

pub open spec fn font_table_view(r: Result<Option<Vec<u8>>, String>) -> Result<Option<Seq<u8>>, Seq<char>> {
    match r {
        Ok(Some(v)) => Ok(Some(v@)),
        Ok(None) => Ok(None),
        Err(e) => Err(e@),
    }
}

/// What opening `font` and asking for the table `tag` gives.
pub open spec fn spec_font_table(font: Seq<u8>, tag: Seq<u8>) -> Result<Option<Seq<u8>>, Seq<char>> {
    match open_error(font) {
        Some(e) => Err(e),
        None => Ok(table_slice(font, tag)),
    }
}

/// `read_fonts::FontRef::new` on the font data, then `FontRef::table_data`
/// for the tag. The contract states what read-fonts' source does: opening
/// fails with `ReadError::OutOfBounds` for data shorter than the 12-byte
/// table directory and with `ReadError::InvalidSfnt` for an sfnt version
/// other than 0x00010000, 'true' and 'OTTO' (the error's `Display` text is
/// returned); the table's data is found by its first record with the tag
/// (a binary search over a strictly sorted directory finds the same one),
/// and is absent for a null offset or one whose range leaves the data.
#[verifier::external_body]
pub fn font_table_data(font: &[u8], tag: &[u8]) -> (r: Result<Option<Vec<u8>>, String>)
    requires
        small_len(font@.len() as int),
        tag@.len() == 4,
    ensures
        font_table_view(r) == spec_font_table(font@, tag@),
{
    match read_fonts::FontRef::new(font) {
        Ok(f) => {
            let tag = read_fonts::types::Tag::new(&[tag[0], tag[1], tag[2], tag[3]]);
            Ok(f.table_data(tag).map(|d| d.as_bytes().to_vec()))
        },
        Err(e) => Err(e.to_string()),
    }
}

} // verus!

verus! {

/// How a tag byte is shown: printable ASCII as itself, else `{0xXX}`.
pub open spec fn tag_byte_text(b: u8) -> Seq<char> {
    if 0x20 <= b <= 0x7E {
        seq![b as char]
    } else {
        "{0x"@ + hex(b as nat, 2) + "}"@
    }
}

/// The displayed text of a four-byte tag.
pub open spec fn tag_text(t: Seq<u8>) -> Seq<char> {
    tag_byte_text(t[0]) + tag_byte_text(t[1]) + tag_byte_text(t[2]) + tag_byte_text(t[3])
}

fn tag_byte_string(b: u8) -> (r: String)
    ensures
        r@ == tag_byte_text(b),
{
    if 0x20 <= b && b <= 0x7E {
        crate::text::char_string(b as char)
    } else {
        let mut s = text("{0x");
        let h = hex_string(b as u64, 2);
        s.append(h.as_str());
        s.append("}");
        s
    }
}

/// The displayed text of the tag at `pos` (`Tag`'s `Display`).
pub fn tag_string(b: &[u8], pos: usize) -> (r: String)
    requires
        pos + 4 <= b@.len(),
    ensures
        r@ == tag_text(b@.subrange(pos as int, pos + 4)),
{
    let mut s = tag_byte_string(b[pos]);
    let s1 = tag_byte_string(b[pos + 1]);
    s.append(s1.as_str());
    let s2 = tag_byte_string(b[pos + 2]);
    s.append(s2.as_str());
    let s3 = tag_byte_string(b[pos + 3]);
    s.append(s3.as_str());
    s
}

/// A table of the font: its tag, length and offset.
pub struct FontTableInfo {
    pub tag: String,
    pub length: u32,
    pub offset: u32,
}

/// The table directory of a font.
pub struct FontInfo {
    pub tables: Vec<FontTableInfo>,
    pub num_tables: u16,
}

pub open spec fn table_info_view(t: FontTableInfo) -> (Seq<char>, u32, u32) {
    (t.tag@, t.length, t.offset)
}

pub open spec fn infos_view(s: Seq<FontTableInfo>) -> Seq<(Seq<char>, u32, u32)> {
    s.map_values(|t: FontTableInfo| table_info_view(t))
}

/// The (tag, length, offset) of table record `i`.
pub open spec fn record_info(font: Seq<u8>, i: int) -> (Seq<char>, u32, u32) {
    (
        tag_text(font.subrange(12 + 16 * i, 16 + 16 * i)),
        u32_at(font, 12 + 16 * i + 12) as u32,
        u32_at(font, 12 + 16 * i + 8) as u32,
    )
}

/// The table directory of a font that opens: every record that the
/// directory holds, and the table count it states.
pub open spec fn spec_font_info(font: Seq<u8>) -> (Seq<(Seq<char>, u32, u32)>, u16) {
    (Seq::new(record_count(font), |i: int| record_info(font, i)), u16_at(font, 4) as u16)
}

/// Why the font data does not open, if it does not.
pub fn check_open(font: &[u8]) -> (r: Option<String>)
    ensures
        crate::text::opt_string(r) == open_error(font@),
{
    if font.len() < 12 {
        return Some(text("An offset was out of bounds"));
    }
    let version = be_u32(font, 0);
    if !(version == 0x0001_0000 || version == 0x7472_7565 || version == 0x4F54_544F) {
        let mut e = text("Invalid sfnt version ");
        let h = hex_0x_string(version as u64, 8);
        e.append(h.as_str());
        return Some(e);
    }
    None
}

/// Lists the tables of a font from its table directory.
pub fn font_info(font: &[u8]) -> (r: Result<FontInfo, String>)
    requires
        small_len(font@.len() as int),
    ensures
        match r {
            Ok(info) => open_error(font@) is None && (
                infos_view(info.tables@),
                info.num_tables,
            ) == spec_font_info(font@),
            Err(e) => open_error(font@) == Some(e@),
        },
{
    if font.len() < 12 {
        return Err(text("An offset was out of bounds"));
    }
    let version = be_u32(font, 0);
    if !(version == 0x0001_0000 || version == 0x7472_7565 || version == 0x4F54_544F) {
        let mut e = text("Invalid sfnt version ");
        let h = hex_0x_string(version as u64, 8);
        e.append(h.as_str());
        return Err(e);
    }
    let num_tables = be_u16(font, 4);
    let count: usize = if 12 + 16 * (num_tables as usize) <= font.len() { num_tables as usize } else { 0 };
    let ghost want = Seq::new(count as nat, |i: int| record_info(font@, i));
    let mut tables: Vec<FontTableInfo> = Vec::new();
    let mut i: usize = 0;
    while i < count
        invariant
            i <= count,
            12 + 16 * count <= font@.len(),
            small_len(font@.len() as int),
            want == Seq::new(count as nat, |i: int| record_info(font@, i)),
            infos_view(tables@) == want.take(i as int),
        decreases count - i,
    {
        let base = 12 + 16 * i;
        let tag = tag_string(font, base);
        let offset = be_u32(font, base + 8);
        let length = be_u32(font, base + 12);
        let ghost prev = tables@;
        let info = FontTableInfo { tag, length, offset };
        assert(table_info_view(info) == record_info(font@, i as int));
        tables.push(info);
        assert(tables@ == prev.push(info));
        assert(infos_view(prev.push(info)) =~= infos_view(prev).push(table_info_view(info)));
        assert(want.take(i + 1) =~= want.take(i as int).push(want[i as int]));
        assert(infos_view(tables@) =~= want.take(i + 1));
        i = i + 1;
    }
    assert(want.take(count as int) =~= want);
    Ok(FontInfo { tables, num_tables })
}

} // verus!

verus! {

/// The message for a table that the font lacks.
pub open spec fn missing_table(tag: Seq<u8>) -> Seq<char> {
    "the "@ + tag_text(tag) + " table is missing"@
}

/// The data of the table `tag` of `font`, or why there is none.
pub open spec fn spec_load(font: Seq<u8>, tag: Seq<u8>) -> Result<Seq<u8>, Seq<char>> {
    match spec_font_table(font, tag) {
        Err(e) => Err(e),
        Ok(None) => Err(missing_table(tag)),
        Ok(Some(t)) => Ok(t),
    }
}

pub open spec fn loaded_view(r: Result<Vec<u8>, String>) -> Result<Seq<u8>, Seq<char>> {
    match r {
        Ok(v) => Ok(v@),
        Err(e) => Err(e@),
    }
}

/// The data of the table `tag` of `font`.
pub fn load_table(font: &[u8], tag: &[u8]) -> (r: Result<Vec<u8>, String>)
    requires
        small_len(font@.len() as int),
        tag@.len() == 4,
    ensures
        loaded_view(r) == spec_load(font@, tag@),
        r matches Ok(v) ==> v@.len() <= font@.len() && v@.len() < 0x1_0000_0000,
{
    proof {
        if let Some(i) = find_record(font@, tag@, 0) {
            assert(0 <= u32_at(font@, 12 + 16 * i as int + 12) < 0x1_0000_0000);
        }
    }
    match font_table_data(font, tag) {
        Err(e) => Err(e),
        Ok(None) => {
            let mut m = text("the ");
            let t = tag_string(tag, 0);
            m.append(t.as_str());
            m.append(" table is missing");
            assert(tag@.subrange(0, 4) =~= tag@);
            Err(m)
        },
        Ok(Some(t)) => Ok(t),
    }
}


proof fn lemma_find_record(font: Seq<u8>, tag: Seq<u8>, i: nat)
    ensures
        find_record(font, tag, i) matches Some(j) ==> i <= j < record_count(font) && font.subrange(
            12 + 16 * j as int,
            16 + 16 * j as int,
        ) == tag,
    decreases record_count(font) - i,
{
    if i < record_count(font) && font.subrange(12 + 16 * i as int, 16 + 16 * i as int) != tag {
        lemma_find_record(font, tag, i + 1);
    }
}

/// A table that loads is one that the table directory lists: some record
/// of the directory has its tag, and the table's bytes are the range of the
/// font that the record's offset and length give.
pub proof fn loaded_table_is_listed(font: Seq<u8>, tag: Seq<u8>)
    requires
        spec_load(font, tag) is Ok,
    ensures
        open_error(font) is None,
        exists|i: int|
            0 <= i < spec_font_info(font).0.len() && (#[trigger] spec_font_info(font).0[i]).0 == tag_text(tag)
                && spec_load(font, tag)->Ok_0 == font.subrange(
                spec_font_info(font).0[i].2 as int,
                spec_font_info(font).0[i].2 + spec_font_info(font).0[i].1,
            ),
{
    lemma_find_record(font, tag, 0);
    let j = find_record(font, tag, 0)->Some_0 as int;
    assert(0 <= u32_at(font, 12 + 16 * j + 8) < 0x1_0000_0000);
    assert(0 <= u32_at(font, 12 + 16 * j + 12) < 0x1_0000_0000);
    assert(spec_font_info(font).0[j] == record_info(font, j));
}
} // verus!
