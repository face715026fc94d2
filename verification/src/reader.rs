use vstd::prelude::*;
use vstd::slice::slice_subrange;
use crate::json::{Json, JsonV, sfield, parsed_field};

verus! {

/// A length well below the address-space limit: no buffer that a process
/// holds comes near it, so offsets computed within one stay within `usize`.
pub open spec fn small_len(n: int) -> bool {
    n <= usize::MAX / 4
}

/// The big-endian unsigned 16-bit value at `i`.
pub open spec fn u16_at(s: Seq<u8>, i: int) -> int {
    s[i] * 256 + s[i + 1]
}

/// The big-endian unsigned 24-bit value at `i`.
pub open spec fn u24_at(s: Seq<u8>, i: int) -> int {
    (s[i] * 256 + s[i + 1]) * 256 + s[i + 2]
}

/// The big-endian unsigned 32-bit value at `i`.
pub open spec fn u32_at(s: Seq<u8>, i: int) -> int {
    ((s[i] * 256 + s[i + 1]) * 256 + s[i + 2]) * 256 + s[i + 3]
}

/// The big-endian two's-complement 16-bit value at `i`.
pub open spec fn i16_at(s: Seq<u8>, i: int) -> int {
    let u = u16_at(s, i);
    if u >= 0x8000 { u - 0x10000 } else { u }
}

/// The big-endian two's-complement 32-bit value at `i`.
pub open spec fn i32_at(s: Seq<u8>, i: int) -> int {
    let u = u32_at(s, i);
    if u >= 0x8000_0000 { u - 0x1_0000_0000 } else { u }
}

pub fn be_u16(b: &[u8], i: usize) -> (r: u16)
    requires
        i + 2 <= b@.len(),
    ensures
        r == u16_at(b@, i as int),
{
    (b[i] as u16) * 256 + (b[i + 1] as u16)
}

pub fn be_u24(b: &[u8], i: usize) -> (r: u32)
    requires
        i + 3 <= b@.len(),
    ensures
        r == u24_at(b@, i as int),
{
    ((b[i] as u32) * 256 + (b[i + 1] as u32)) * 256 + (b[i + 2] as u32)
}

pub fn be_u32(b: &[u8], i: usize) -> (r: u32)
    requires
        i + 4 <= b@.len(),
    ensures
        r == u32_at(b@, i as int),
{
    (((b[i] as u32) * 256 + (b[i + 1] as u32)) * 256 + (b[i + 2] as u32)) * 256 + (b[i + 3] as u32)
}

pub fn be_i16(b: &[u8], i: usize) -> (r: i16)
    requires
        i + 2 <= b@.len(),
    ensures
        r == i16_at(b@, i as int),
{
    let u = be_u16(b, i);
    if u >= 0x8000 {
        ((u as i32) - 0x10000) as i16
    } else {
        u as i16
    }
}

pub fn be_i32(b: &[u8], i: usize) -> (r: i32)
    requires
        i + 4 <= b@.len(),
    ensures
        r == i32_at(b@, i as int),
{
    let u = be_u32(b, i);
    if u >= 0x8000_0000 {
        ((u as i64) - 0x1_0000_0000) as i32
    } else {
        u as i32
    }
}

/// The big-endian 16-bit value at `offset`, or 0 where fewer than two bytes
/// stand there.
pub open spec fn spec_read_u16_at(s: Seq<u8>, offset: int) -> int {
    if offset + 2 <= s.len() { u16_at(s, offset) } else { 0 }
}

pub fn read_u16_at(bytes: &[u8], offset: usize) -> (r: u16)
    requires
        offset + 2 <= usize::MAX,
    ensures
        r == spec_read_u16_at(bytes@, offset as int),
{
    if offset + 2 <= bytes.len() {
        be_u16(bytes, offset)
    } else {
        0
    }
}

/// A primitive value read from a table, with the type it was read as.
pub enum Scalar {
    U8(u8),
    I8(i8),
    U16(u16),
    I16(i16),
    U32(u32),
    I32(i32),
    U64(u64),
    I64(i64),
    Bool(bool),
}

/// The OpenType name of a scalar's type.
pub open spec fn spec_font_type_name(v: Scalar) -> Seq<char> {
    match v {
        Scalar::U8(_) => "uint8"@,
        Scalar::I8(_) => "int8"@,
        Scalar::U16(_) => "uint16"@,
        Scalar::I16(_) => "int16"@,
        Scalar::U32(_) => "uint32"@,
        Scalar::I32(_) => "int32"@,
        Scalar::U64(_) => "uint64"@,
        Scalar::I64(_) => "int64"@,
        Scalar::Bool(_) => "bool"@,
    }
}

/// The model of a scalar as a tree value.
pub open spec fn scalar_jv(v: Scalar) -> JsonV {
    match v {
        Scalar::U8(x) => JsonV::Num(x as int),
        Scalar::I8(x) => JsonV::Num(x as int),
        Scalar::U16(x) => JsonV::Num(x as int),
        Scalar::I16(x) => JsonV::Num(x as int),
        Scalar::U32(x) => JsonV::Num(x as int),
        Scalar::I32(x) => JsonV::Num(x as int),
        Scalar::U64(x) => JsonV::Num(x as int),
        Scalar::I64(x) => JsonV::Num(x as int),
        Scalar::Bool(b) => JsonV::Bool(b),
    }
}

pub fn font_type_name(v: &Scalar) -> (r: &'static str)
    ensures
        r@ == spec_font_type_name(*v),
{
    match v {
        Scalar::U8(_) => "uint8",
        Scalar::I8(_) => "int8",
        Scalar::U16(_) => "uint16",
        Scalar::I16(_) => "int16",
        Scalar::U32(_) => "uint32",
        Scalar::I32(_) => "int32",
        Scalar::U64(_) => "uint64",
        Scalar::I64(_) => "int64",
        Scalar::Bool(_) => "bool",
    }
}

pub fn scalar_json(v: &Scalar) -> (r: Json)
    ensures
        r.jv() == scalar_jv(*v),
{
    match v {
        Scalar::U8(x) => Json::UInt(*x as u64),
        Scalar::I8(x) => Json::Int(*x as i64),
        Scalar::U16(x) => Json::UInt(*x as u64),
        Scalar::I16(x) => Json::Int(*x as i64),
        Scalar::U32(x) => Json::UInt(*x as u64),
        Scalar::I32(x) => Json::Int(*x as i64),
        Scalar::U64(x) => Json::UInt(*x),
        Scalar::I64(x) => Json::Int(*x),
        Scalar::Bool(b) => Json::Bool(*b),
    }
}

/// A cursor over a table that hands out described fields in layout order.
pub struct Reader {
    offset: usize,
}

impl Reader {
    /// The number of bytes read so far.
    pub closed spec fn pos(&self) -> nat {
        self.offset as nat
    }

    pub fn new() -> (r: Self)
        ensures
            r.pos() == 0,
    {
        Reader { offset: 0 }
    }

    /// Describes `value` as a `size`-byte field of type `data_type` at the
    /// current offset, and moves past it.
    pub fn read_as(&mut self, value: Json, size: usize, data_type: &str) -> (r: Json)
        requires
            old(self).pos() + size <= usize::MAX,
        ensures
            final(self).pos() == old(self).pos() + size,
            r.jv() == sfield(data_type@, value.jv(), old(self).pos() as int, size as int),
    {
        let current = self.offset;
        self.offset = self.offset + size;
        parsed_field(data_type, value, current, size)
    }

    /// Like `read_as`, with the type named after the scalar's own type.
    pub fn read(&mut self, value: Scalar, size: usize) -> (r: Json)
        requires
            old(self).pos() + size <= usize::MAX,
        ensures
            final(self).pos() == old(self).pos() + size,
            r.jv() == sfield(
                spec_font_type_name(value),
                scalar_jv(value),
                old(self).pos() as int,
                size as int,
            ),
    {
        let name = font_type_name(&value);
        let j = scalar_json(&value);
        self.read_as(j, size, name)
    }

    /// The current offset.
    pub fn current_offset(&self) -> (r: usize)
        ensures
            r == self.pos(),
    {
        self.offset
    }
}


/// The sum of a run of field sizes.
pub open spec fn total_size(sizes: Seq<usize>) -> int
    decreases sizes.len(),
{
    if sizes.len() == 0 {
        0
    } else {
        total_size(sizes.drop_last()) + sizes.last()
    }
}

/// A reader that starts at offset 0 (as `Reader::new` gives) and then reads
/// fields of the given sizes (each `read` and `read_as` moves its position
/// by the field's size) stands at the sum of the sizes, which
/// `current_offset` reports.
pub proof fn reads_add_up(positions: Seq<int>, sizes: Seq<usize>)
    requires
        positions.len() == sizes.len() + 1,
        positions[0] == 0,
        forall|i: int| 0 <= i < sizes.len() ==> #[trigger] positions[i + 1] == positions[i] + sizes[i],
    ensures
        positions.last() == total_size(sizes),
    decreases sizes.len(),
{
    if sizes.len() > 0 {
        let p = positions.drop_last();
        let s = sizes.drop_last();
        assert forall|i: int| 0 <= i < s.len() implies #[trigger] p[i + 1] == p[i] + s[i] by {
            assert(positions[i + 1] == positions[i] + sizes[i]);
        }
        reads_add_up(p, s);
        assert(positions[sizes.len() as int] == positions[sizes.len() - 1] + sizes[sizes.len() - 1]);
    }
}

} // verus!
