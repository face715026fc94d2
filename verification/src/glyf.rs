use vstd::prelude::*;
use vstd::slice::slice_subrange;
use crate::text::{flag_names, flags_text, flags_text_opt, flags_string, flags_string_opt, set_flag_names, table_view};
use crate::json::{
    jarr, jint, jnum, jobj, jstr, jv_entries, jv_seq, new_arr, new_obj, parsed_field, parsed_field_sum,
    parsed_field_wide, parsed_view, push_entry, push_item, sfield, sfield_sum, text, Json, JsonV, field_span,
};
use crate::reader::{be_i16, be_u16, be_u32, small_len};
use crate::font::{load_table, out_of_bounds, spec_load};

verus! {

pub open spec fn simple_flags() -> Seq<(u64, Seq<char>)> {
    seq![(0x1, "ON_CURVE"@), (0x2, "X_SHORT"@), (0x4, "Y_SHORT"@), (0x8, "REPEAT"@), (0x10, "X_SAME/POS"@), (0x20, "Y_SAME/POS"@), (0x40, "OVERLAP"@)]
}

pub open spec fn spec_format_simple_flag(val: u8) -> Seq<char> {
    flags_text_opt((val) as nat, 2, flag_names((val) as u64, simple_flags()))
}

/// A simple-glyph point flag with the names of its bits.
pub fn format_simple_flag(val: u8) -> (r: String)
    ensures
        r@ == spec_format_simple_flag(val),
{
    let bits: u64 = (val) as u64;
    let table: Vec<(u64, &'static str)> = vec![(0x1, "ON_CURVE"), (0x2, "X_SHORT"), (0x4, "Y_SHORT"), (0x8, "REPEAT"), (0x10, "X_SAME/POS"), (0x20, "Y_SAME/POS"), (0x40, "OVERLAP")];
    assert(table_view(table@) =~= simple_flags());
    let names = set_flag_names(bits, &table);
    flags_string_opt(bits, 2, &names)
}

pub open spec fn component_flags() -> Seq<(u64, Seq<char>)> {
    seq![(0x1, "ARGS_WORDS"@), (0x2, "ARGS_XY"@), (0x4, "ROUND_XY"@), (0x8, "SCALE"@), (0x20, "MORE_COMPONENTS"@), (0x40, "XY_SCALE"@), (0x80, "2X2"@), (0x100, "INSTR"@), (0x200, "USE_METRICS"@), (0x400, "OVERLAP"@), (0x800, "SCALED_OFFSET"@), (0x1000, "UNSCALED_OFFSET"@)]
}

pub open spec fn spec_format_component_flag(val: u16) -> Seq<char> {
    flags_text_opt((val) as nat, 4, flag_names((val) as u64, component_flags()))
}

/// A component flag with the names of its bits.
pub fn format_component_flag(val: u16) -> (r: String)
    ensures
        r@ == spec_format_component_flag(val),
{
    let bits: u64 = (val) as u64;
    let table: Vec<(u64, &'static str)> = vec![(0x1, "ARGS_WORDS"), (0x2, "ARGS_XY"), (0x4, "ROUND_XY"), (0x8, "SCALE"), (0x20, "MORE_COMPONENTS"), (0x40, "XY_SCALE"), (0x80, "2X2"), (0x100, "INSTR"), (0x200, "USE_METRICS"), (0x400, "OVERLAP"), (0x800, "SCALED_OFFSET"), (0x1000, "UNSCALED_OFFSET")];
    assert(table_view(table@) =~= component_flags());
    let names = set_flag_names(bits, &table);
    flags_string_opt(bits, 4, &names)
}

} // verus!

verus! {

// ---- Point flags and coordinates of a simple glyph ----

/// Scans the flags of `left` points from `off` on, adding up the bytes the
/// x and y coordinates take; `None` where the flags run out or a repeat
/// count passes the points left.
pub open spec fn coords_scan(d: Seq<u8>, off: int, left: int, x: int, y: int) -> Option<(int, int, int)>
    decreases left,
{
    if left <= 0 {
        Some((off, x, y))
    } else if off < 0 || off >= d.len() {
        None
    } else {
        let f = d[off];
        let rep = f & 8u8 != 0;
        if rep && off + 1 >= d.len() {
            None
        } else {
            let r: int = if rep { d[off + 1] + 1 } else { 1 };
            let next = if rep { off + 2 } else { off + 1 };
            if r > left {
                None
            } else {
                let dx = if f & 2u8 != 0 { r } else if f & 16u8 != 0 { 0 } else { 2 * r };
                let dy = if f & 4u8 != 0 { r } else if f & 32u8 != 0 { 0 } else { 2 * r };
                coords_scan(d, next, left - r, x + dx, y + dy)
            }
        }
    }
}

/// The bytes the flags, x coordinates and y coordinates of `points` points
/// take, or `None` where the flags cannot be read.
pub open spec fn spec_resolve_coords_len(d: Seq<u8>, points: int) -> Option<(int, int, int)> {
    coords_scan(d, 0, points, 0, 0)
}

proof fn lemma_coords_scan(d: Seq<u8>, e: Seq<u8>, off: int, left: int, x: int, y: int)
    requires
        coords_scan(d, off, left, x, y) is Some,
        left >= 0,
    ensures
        ({
            let (f, xx, yy) = coords_scan(d, off, left, x, y)->Some_0;
            &&& off <= f <= off + 2 * left
            &&& x <= xx <= x + 2 * left
            &&& y <= yy <= y + 2 * left
            &&& left > 0 ==> f <= d.len()
            &&& coords_scan(d + e, off, left, x, y) == coords_scan(d, off, left, x, y)
        }),
    decreases left,
{
    if left > 0 {
        let f = d[off];
        let rep = f & 8u8 != 0;
        let r: int = if rep { d[off + 1] + 1 } else { 1 };
        let next = if rep { off + 2 } else { off + 1 };
        let dx = if f & 2u8 != 0 { r } else if f & 16u8 != 0 { 0 } else { 2 * r };
        let dy = if f & 4u8 != 0 { r } else if f & 32u8 != 0 { 0 } else { 2 * r };
        assert((d + e)[off] == f);
        if rep {
            assert((d + e)[off + 1] == d[off + 1]);
        }
        lemma_coords_scan(d, e, next, left - r, x + dx, y + dy);
        if left - r == 0 {
            assert(next <= d.len());
        }
    }
}

/// The flags of `n` points take at most two bytes a point, and so do the x
/// and the y coordinates; the flags of at least one point take at least one
/// byte and lie within the data; and bytes after the flags do not change
/// the result.
pub proof fn coords_len_law(d: Seq<u8>, e: Seq<u8>, n: int)
    requires
        n >= 0,
        spec_resolve_coords_len(d, n) is Some,
    ensures
        ({
            let (f, x, y) = spec_resolve_coords_len(d, n)->Some_0;
            &&& n == 0 ==> f == 0
            &&& n > 0 ==> 1 <= f <= d.len()
            &&& f <= 2 * n && x <= 2 * n && y <= 2 * n
            &&& spec_resolve_coords_len(d + e, n) == spec_resolve_coords_len(d, n)
        }),
{
    lemma_coords_scan(d, e, 0, n, 0, 0);
    if n > 0 {
        let f0 = d[0];
        let rep = f0 & 8u8 != 0;
        let r: int = if rep { d[1] + 1 } else { 1 };
        let next: int = if rep { 2 } else { 1 };
        let dx = if f0 & 2u8 != 0 { r } else if f0 & 16u8 != 0 { 0 } else { 2 * r };
        let dy = if f0 & 4u8 != 0 { r } else if f0 & 32u8 != 0 { 0 } else { 2 * r };
        lemma_coords_scan(d, e, next, n - r, dx, dy);
    }
}

/// One coordinate of a point with flag `f`, read at `off`: a short value
/// (its sign from the same-or-positive bit), a 16-bit value, or none for a
/// repeated coordinate or where the data has run out.
pub open spec fn coord_one(f: u8, c: Seq<u8>, is_x: bool, base: int, off: int) -> (Seq<JsonV>, int) {
    let short = if is_x { f & 2u8 != 0 } else { f & 4u8 != 0 };
    let same = if is_x { f & 16u8 != 0 } else { f & 32u8 != 0 };
    if short {
        if 0 <= off < c.len() {
            let v = c[off] as int;
            (seq![sfield("uint8"@, JsonV::Num(if same { v } else { -v }), base + off, 1)], off + 1)
        } else {
            (seq![], off)
        }
    } else if !same {
        if 0 <= off && off + 1 < c.len() {
            (seq![sfield("int16"@, JsonV::Num(crate::reader::i16_at(c, off)), base + off, 2)], off + 2)
        } else {
            (seq![], off)
        }
    } else {
        (seq![], off)
    }
}

/// A point's coordinate follows its flag: with the short bit (x: 0x02,
/// y: 0x04) it is the one byte at `off`, positive where the
/// same-or-positive bit (x: 0x10, y: 0x20) is set and negative where it is
/// not; without the short bit and with that bit it repeats the previous
/// coordinate and takes no byte; with neither it is the signed 16-bit number
/// at `off`. Flipping the same-or-positive bit of a short coordinate
/// negates it.
pub proof fn coordinates_follow_their_flags(f: u8, g: u8, c: Seq<u8>, is_x: bool, base: int, off: int)
    requires
        0 <= off,
    ensures
        ({
            let short_bit: u8 = if is_x { 2 } else { 4 };
            let same_bit: u8 = if is_x { 16 } else { 32 };
            let (v, next) = coord_one(f, c, is_x, base, off);
            let short = f & short_bit != 0;
            let same = f & same_bit != 0;
            &&& (short && off < c.len() ==> next == off + 1 && v == seq![
                sfield("uint8"@, JsonV::Num(if same { c[off] as int } else { -(c[off] as int) }), base + off, 1),
            ])
            &&& (!short && same ==> next == off && v.len() == 0)
            &&& (!short && !same && off + 1 < c.len() ==> next == off + 2 && v == seq![
                sfield("int16"@, JsonV::Num(crate::reader::i16_at(c, off)), base + off, 2),
            ])
            &&& (short && off < c.len() && g & short_bit != 0 && (g & same_bit != 0) != same ==> {
                let w = coord_one(g, c, is_x, base, off).0;
                w[0]->Obj_0[1].1->Num_0 == -(v[0]->Obj_0[1].1->Num_0)
            })
        }),
{
}

/// `r` points with flag `f` from `off` on.
pub open spec fn coord_run(f: u8, c: Seq<u8>, is_x: bool, base: int, r: int, off: int) -> (Seq<JsonV>, int)
    decreases r,
{
    if r <= 0 {
        (seq![], off)
    } else {
        let (a, o1) = coord_one(f, c, is_x, base, off);
        let (b, o2) = coord_run(f, c, is_x, base, r - 1, o1);
        (a + b, o2)
    }
}

/// The coordinates for the flags from flag byte `i` on, read from `off`.
pub open spec fn coord_fields(fl: Seq<u8>, c: Seq<u8>, is_x: bool, base: int, i: int, off: int) -> Seq<JsonV>
    decreases fl.len() - i,
{
    if i < 0 || i >= fl.len() {
        seq![]
    } else {
        let f = fl[i];
        let rep = f & 8u8 != 0 && i + 1 < fl.len();
        let r: int = if rep { fl[i + 1] + 1 } else { 1 };
        let ni = if rep { i + 2 } else { i + 1 };
        let (a, o1) = coord_run(f, c, is_x, base, r, off);
        a + coord_fields(fl, c, is_x, base, ni, o1)
    }
}

// ---- Components of a composite glyph ----

pub open spec fn args_size(flags: u16) -> int {
    if flags & 1u16 != 0 { 4 } else { 2 }
}

pub open spec fn transform_size(flags: u16) -> int {
    if flags & 8u16 != 0 {
        2
    } else if flags & 0x40u16 != 0 {
        4
    } else if flags & 0x80u16 != 0 {
        8
    } else {
        0
    }
}

pub open spec fn f2dot14_field(d: Seq<u8>, p: int, at: int) -> JsonV {
    sfield("F2DOT14"@, JsonV::F2Dot14(crate::reader::i16_at(d, p)), at, 2)
}

/// The transform of a component whose transform bytes start at `p`, shown at `at`.
pub open spec fn transform_fields(flags: u16, d: Seq<u8>, p: int, at: int) -> Seq<(Seq<char>, JsonV)> {
    if flags & 8u16 != 0 {
        seq![("scale"@, f2dot14_field(d, p, at))]
    } else if flags & 0x40u16 != 0 {
        seq![("xscale"@, f2dot14_field(d, p, at)), ("yscale"@, f2dot14_field(d, p + 2, at + 2))]
    } else if flags & 0x80u16 != 0 {
        seq![
            ("xscale"@, f2dot14_field(d, p, at)),
            ("scale01"@, f2dot14_field(d, p + 2, at + 2)),
            ("scale10"@, f2dot14_field(d, p + 4, at + 4)),
            ("yscale"@, f2dot14_field(d, p + 6, at + 6)),
        ]
    } else {
        seq![]
    }
}

/// A component's transform is read in the order the glyph table stores it:
/// one scale; or the x scale then the y scale; or the 2x2 matrix as xscale,
/// scale01, scale10, yscale; each a 2.14 number at its own offset.
pub proof fn transform_fields_read_their_bytes(flags: u16, d: Seq<u8>, p: int, at: int)
    ensures
        ({
            let e = transform_fields(flags, d, p, at);
            let f = |q: int, a: int| sfield("F2DOT14"@, JsonV::F2Dot14(crate::reader::i16_at(d, q)), a, 2);
            &&& (flags & 8u16 != 0 ==> e == seq![("scale"@, f(p, at))])
            &&& (flags & 8u16 == 0 && flags & 0x40u16 != 0 ==> e == seq![("xscale"@, f(p, at)), ("yscale"@, f(p + 2, at + 2))])
            &&& (flags & 8u16 == 0 && flags & 0x40u16 == 0 && flags & 0x80u16 != 0 ==> e == seq![
                ("xscale"@, f(p, at)),
                ("scale01"@, f(p + 2, at + 2)),
                ("scale10"@, f(p + 4, at + 4)),
                ("yscale"@, f(p + 6, at + 6)),
            ])
        }),
{
}

pub open spec fn signed_byte(b: u8) -> int {
    if b >= 128 { b - 256 } else { b as int }
}

/// The two arguments of a component, read at `p`, shown from `at` on.
pub open spec fn argument_fields(flags: u16, d: Seq<u8>, p: int, at: int) -> Seq<(Seq<char>, JsonV)> {
    let xy = flags & 2u16 != 0;
    if flags & 1u16 != 0 {
        let ty = if xy { "int16"@ } else { "uint16"@ };
        seq![
            ("argument1"@, sfield(ty, JsonV::Num(crate::reader::i16_at(d, p)), at, 2)),
            ("argument2"@, sfield(ty, JsonV::Num(crate::reader::i16_at(d, p + 2)), at + 2, 2)),
        ]
    } else if xy {
        seq![
            ("argument1"@, sfield("int8"@, JsonV::Num(signed_byte(d[p])), at, 1)),
            ("argument2"@, sfield("int8"@, JsonV::Num(signed_byte(d[p + 1])), at + 1, 1)),
        ]
    } else {
        seq![
            ("argument1"@, sfield("uint8"@, JsonV::Num(d[p] as int), at, 1)),
            ("argument2"@, sfield("uint8"@, JsonV::Num(d[p + 1] as int), at + 1, 1)),
        ]
    }
}

/// The component at `off`, which fits the data, shown with `base` added.
pub open spec fn component_value(d: Seq<u8>, base: int, off: int) -> JsonV {
    let flags = crate::reader::u16_at(d, off) as u16;
    let p_args = off + 4;
    let p_t = p_args + args_size(flags);
    let t = transform_fields(flags, d, p_t, base + p_t);
    let value = seq![
        ("flags"@, sfield_sum("uint16"@, JsonV::Num(flags as int), base + off, 2, spec_format_component_flag(flags))),
        ("glyphIndex"@, sfield("uint16"@, JsonV::Num(crate::reader::u16_at(d, off + 2)), base + off + 2, 2)),
    ] + argument_fields(flags, d, p_args, base + p_args) + if t.len() > 0 {
        seq![("transform"@, sfield("Transform"@, JsonV::Obj(t), base + p_t, transform_size(flags)))]
    } else {
        seq![]
    };
    sfield("ComponentGlyph"@, JsonV::Obj(value), base + off, p_t + transform_size(flags) - off)
}

/// The components from `off` on: each that fits is described; one that
/// does not ends the list where its reading stopped. Gives the components,
/// where reading stopped and whether a component asked for instructions.
pub open spec fn comp_list(d: Seq<u8>, base: int, off: int) -> (Seq<JsonV>, int, bool)
    decreases d.len() - off,
{
    if off < 0 || off >= d.len() || off + 4 > d.len() {
        (seq![], off, false)
    } else {
        let flags = crate::reader::u16_at(d, off) as u16;
        let o1 = off + 4;
        if o1 + args_size(flags) > d.len() {
            (seq![], o1, false)
        } else {
            let o2 = o1 + args_size(flags);
            if o2 + transform_size(flags) > d.len() {
                (seq![], o2, false)
            } else {
                let o3 = o2 + transform_size(flags);
                let hi = flags & 0x100u16 != 0;
                if flags & 0x20u16 != 0 {
                    let (rest, oe, h2) = comp_list(d, base, o3);
                    (seq![component_value(d, base, off)] + rest, oe, hi || h2)
                } else {
                    (seq![component_value(d, base, off)], o3, hi)
                }
            }
        }
    }
}

/// Each field of a component is read from the bytes at the offset it
/// reports: the flags and glyph index from the component's first four
/// bytes, then the x and y arguments in that order, the first from the
/// bytes right after the glyph index and the second from the bytes after
/// the first (two bytes each with ARG_1_AND_2_ARE_WORDS, signed where
/// ARGS_ARE_XY_VALUES is set; else one byte each, signed where it is set).
pub proof fn component_fields_read_their_bytes(d: Seq<u8>, base: int, off: int)
    requires
        0 <= off,
        off + 4 + args_size(crate::reader::u16_at(d, off) as u16)
            + transform_size(crate::reader::u16_at(d, off) as u16) <= d.len(),
    ensures
        ({
            let flags = crate::reader::u16_at(d, off) as u16;
            let c = comp_list(d, base, off).0;
            let e = c[0]->Obj_0[1].1->Obj_0;
            let p = off + 4;
            let at = base + p;
            &&& c.len() >= 1
            &&& e[0] == ("flags"@, sfield_sum("uint16"@, JsonV::Num(crate::reader::u16_at(d, off)), base + off, 2, spec_format_component_flag(flags)))
            &&& e[1] == ("glyphIndex"@, sfield("uint16"@, JsonV::Num(crate::reader::u16_at(d, off + 2)), base + off + 2, 2))
            &&& (flags & 1u16 != 0 ==> {
                let ty = if flags & 2u16 != 0 { "int16"@ } else { "uint16"@ };
                &&& e[2] == ("argument1"@, sfield(ty, JsonV::Num(crate::reader::i16_at(d, p)), at, 2))
                &&& e[3] == ("argument2"@, sfield(ty, JsonV::Num(crate::reader::i16_at(d, p + 2)), at + 2, 2))
            })
            &&& (flags & 1u16 == 0 && flags & 2u16 != 0 ==> {
                &&& e[2] == ("argument1"@, sfield("int8"@, JsonV::Num(if d[p] >= 128 { d[p] - 256 } else { d[p] as int }), at, 1))
                &&& e[3] == ("argument2"@, sfield("int8"@, JsonV::Num(if d[p + 1] >= 128 { d[p + 1] - 256 } else { d[p + 1] as int }), at + 1, 1))
            })
            &&& (flags & 1u16 == 0 && flags & 2u16 == 0 ==> {
                &&& e[2] == ("argument1"@, sfield("uint8"@, JsonV::Num(d[p] as int), at, 1))
                &&& e[3] == ("argument2"@, sfield("uint8"@, JsonV::Num(d[p + 1] as int), at + 1, 1))
            })
        }),
{
    let flags = crate::reader::u16_at(d, off) as u16;
    let p_args = off + 4;
    let p_t = p_args + args_size(flags);
    let t = transform_fields(flags, d, p_t, base + p_t);
    let head = seq![
        ("flags"@, sfield_sum("uint16"@, JsonV::Num(flags as int), base + off, 2, spec_format_component_flag(flags))),
        ("glyphIndex"@, sfield("uint16"@, JsonV::Num(crate::reader::u16_at(d, off + 2)), base + off + 2, 2)),
    ];
    let args = argument_fields(flags, d, p_args, base + p_args);
    let tail: Seq<(Seq<char>, JsonV)> = if t.len() > 0 {
        seq![("transform"@, sfield("Transform"@, JsonV::Obj(t), base + p_t, transform_size(flags)))]
    } else {
        seq![]
    };
    let value = head + args + tail;
    assert(0 <= crate::reader::u16_at(d, off) < 0x10000);
    assert(flags as int == crate::reader::u16_at(d, off));
    assert(args.len() == 2);
    assert(value[0] == head[0]);
    assert(value[1] == head[1]);
    assert(value[2] == args[0]);
    assert(value[3] == args[1]);
    assert(comp_list(d, base, off).0[0] == component_value(d, base, off));
    assert(component_value(d, base, off)->Obj_0[1].1->Obj_0 == value);
}

} // verus!

verus! {

/// The bytes that the flags, x coordinates and y coordinates of
/// `points_total` points take; `Err` where the flags cannot be read.
pub fn resolve_coords_len(data: &[u8], points_total: u16) -> (r: Result<(u32, u32, u32), ()>)
    requires
        small_len(data@.len() as int),
    ensures
        match r {
            Ok((f, x, y)) => spec_resolve_coords_len(data@, points_total as int) == Some((f as int, x as int, y as int))
                && f <= data@.len() && x <= 2 * points_total && y <= 2 * points_total,
            Err(()) => spec_resolve_coords_len(data@, points_total as int) is None,
        },
{
    let mut offset: usize = 0;
    let mut left: u32 = points_total as u32;
    let mut x: u32 = 0;
    let mut y: u32 = 0;
    while left > 0
        invariant
            left <= points_total,
            offset <= data@.len(),
            x <= 2 * (points_total - left),
            y <= 2 * (points_total - left),
            offset <= 2 * (points_total - left),
            small_len(data@.len() as int),
            coords_scan(data@, offset as int, left as int, x as int, y as int) == coords_scan(data@, 0, points_total as int, 0, 0),
        decreases left,
    {
        if offset >= data.len() {
            return Err(());
        }
        let f = data[offset];
        offset = offset + 1;
        let r: u32 = if f & 8 != 0 {
            if offset >= data.len() {
                return Err(());
            }
            let c = data[offset];
            offset = offset + 1;
            c as u32 + 1
        } else {
            1
        };
        if r > left {
            return Err(());
        }
        if f & 2 != 0 {
            x = x + r;
        } else if f & 16 == 0 {
            x = x + 2 * r;
        }
        if f & 4 != 0 {
            y = y + r;
        } else if f & 32 == 0 {
            y = y + 2 * r;
        }
        left = left - r;
    }
    Ok((offset as u32, x, y))
}

fn coord_one_exec(f: u8, c: &[u8], is_x: bool, base: u64, off: usize, out: &mut Vec<Json>) -> (r: usize)
    requires
        off <= c@.len(),
        small_len(c@.len() as int),
        base <= 0x4000_0000_0000_0000,
    ensures
        jv_seq(final(out)@) == jv_seq(old(out)@) + coord_one(f, c@, is_x, base as int, off as int).0,
        r == coord_one(f, c@, is_x, base as int, off as int).1,
        r <= c@.len(),
{
    let short = if is_x { f & 2 != 0 } else { f & 4 != 0 };
    let same = if is_x { f & 16 != 0 } else { f & 32 != 0 };
    let ghost before = jv_seq(out@);
    if short {
        if off < c.len() {
            let v = c[off] as i64;
            let val = if same { v } else { -v };
            push_item(out, parsed_field_wide("uint8", jint(val), base + off as u64, 1));
            return off + 1;
        }
    } else if !same {
        if off + 1 < c.len() {
            push_item(out, parsed_field_wide("int16", jint(be_i16(c, off) as i64), base + off as u64, 2));
            return off + 2;
        }
    }
    assert(jv_seq(out@) =~= before + Seq::<JsonV>::empty());
    off
}

/// Describes the x or y coordinates of a simple glyph from its flags and
/// coordinate bytes, shown from `base_offset` on.
pub fn parse_coordinate_array(flags: &[u8], coords: &[u8], is_x: bool, base_offset: u64) -> (r: Vec<Json>)
    requires
        small_len(flags@.len() as int),
        small_len(coords@.len() as int),
        base_offset <= 0x4000_0000_0000_0000,
    ensures
        jv_seq(r@) == coord_fields(flags@, coords@, is_x, base_offset as int, 0, 0),
{
    let ghost total = coord_fields(flags@, coords@, is_x, base_offset as int, 0, 0);
    let mut fields = new_arr();
    let mut offset: usize = 0;
    let mut i: usize = 0;
    while i < flags.len()
        invariant
            i <= flags@.len(),
            offset <= coords@.len(),
            small_len(flags@.len() as int),
            small_len(coords@.len() as int),
            base_offset <= 0x4000_0000_0000_0000,
            total == coord_fields(flags@, coords@, is_x, base_offset as int, 0, 0),
            jv_seq(fields@) + coord_fields(flags@, coords@, is_x, base_offset as int, i as int, offset as int) == total,
        decreases flags@.len() - i,
    {
        let f = flags[i];
        let rep = f & 8 != 0 && i + 1 < flags.len();
        let r: usize = if rep { flags[i + 1] as usize + 1 } else { 1 };
        let ni = if rep { i + 2 } else { i + 1 };
        let ghost prefix = jv_seq(fields@);
        let ghost run = coord_run(f, coords@, is_x, base_offset as int, r as int, offset as int);
        let mut k: usize = 0;
        while k < r
            invariant
                k <= r,
                offset <= coords@.len(),
                small_len(coords@.len() as int),
                base_offset <= 0x4000_0000_0000_0000,
                jv_seq(fields@) + coord_run(f, coords@, is_x, base_offset as int, (r - k) as int, offset as int).0 == prefix + run.0,
                coord_run(f, coords@, is_x, base_offset as int, (r - k) as int, offset as int).1 == run.1,
            decreases r - k,
        {
            let ghost acc = jv_seq(fields@);
            let ghost o0 = offset;
            offset = coord_one_exec(f, coords, is_x, base_offset, offset, &mut fields);
            assert(acc + coord_run(f, coords@, is_x, base_offset as int, (r - k) as int, o0 as int).0
                =~= jv_seq(fields@) + coord_run(f, coords@, is_x, base_offset as int, (r - k - 1) as int, offset as int).0);
            k = k + 1;
        }
        assert(coord_run(f, coords@, is_x, base_offset as int, 0, offset as int).0 =~= Seq::<JsonV>::empty());
        assert(jv_seq(fields@) =~= prefix + run.0);
        i = ni;
    }
    assert(coord_fields(flags@, coords@, is_x, base_offset as int, i as int, offset as int) =~= Seq::<JsonV>::empty());
    assert(jv_seq(fields@) =~= total);
    fields
}

} // verus!

verus! {

fn f2dot14_at(d: &[u8], p: usize, at: u64) -> (r: Json)
    requires
        p + 2 <= d@.len(),
        small_len(d@.len() as int),
    ensures
        r.jv() == f2dot14_field(d@, p as int, at as int),
{
    parsed_field_wide("F2DOT14", Json::F2Dot14(be_i16(d, p)), at, 2)
}

fn component_flags_field(flags: u16, at: u64) -> (r: Json)
    ensures
        r.jv() == sfield_sum("uint16"@, JsonV::Num(flags as int), at as int, 2, spec_format_component_flag(flags)),
{
    let mut f = new_obj();
    push_entry(&mut f, "type", Json::Str(text("uint16")));
    push_entry(&mut f, "value", jnum(flags as u64));
    push_entry(&mut f, "offset", jnum(at));
    push_entry(&mut f, "length", jnum(2));
    push_entry(&mut f, "summary", Json::Str(format_component_flag(flags)));
    assert(jv_entries(f@) =~= sfield_sum(
        "uint16"@,
        JsonV::Num(flags as int),
        at as int,
        2,
        spec_format_component_flag(flags),
    )->Obj_0);
    jobj(f)
}

fn push_arguments(o: &mut Vec<(String, Json)>, d: &[u8], flags: u16, pa: usize, at: u64)
    requires
        pa + args_size(flags) <= d@.len(),
        small_len(d@.len() as int),
        at <= 0x8000_0000_0000_0000,
    ensures
        jv_entries(final(o)@) == jv_entries(old(o)@) + argument_fields(flags, d@, pa as int, at as int),
{
    let ghost before = jv_entries(o@);
    let xy = flags & 2 != 0;
    if flags & 1 != 0 {
        let ty = if xy { "int16" } else { "uint16" };
        push_entry(o, "argument1", parsed_field_wide(ty, jint(be_i16(d, pa) as i64), at, 2));
        push_entry(o, "argument2", parsed_field_wide(ty, jint(be_i16(d, pa + 2) as i64), at + 2, 2));
    } else if xy {
        let a = d[pa];
        let b = d[pa + 1];
        let va: i64 = if a >= 128 { a as i64 - 256 } else { a as i64 };
        let vb: i64 = if b >= 128 { b as i64 - 256 } else { b as i64 };
        push_entry(o, "argument1", parsed_field_wide("int8", jint(va), at, 1));
        push_entry(o, "argument2", parsed_field_wide("int8", jint(vb), at + 1, 1));
    } else {
        push_entry(o, "argument1", parsed_field_wide("uint8", jnum(d[pa] as u64), at, 1));
        push_entry(o, "argument2", parsed_field_wide("uint8", jnum(d[pa + 1] as u64), at + 1, 1));
    }
    assert(jv_entries(o@) =~= before + argument_fields(flags, d@, pa as int, at as int));
}

fn transform_entries(d: &[u8], flags: u16, pt: usize, tat: u64) -> (r: Vec<(String, Json)>)
    requires
        pt + transform_size(flags) <= d@.len(),
        small_len(d@.len() as int),
        tat <= 0x8000_0000_0000_0000,
    ensures
        jv_entries(r@) == transform_fields(flags, d@, pt as int, tat as int),
{
    let mut t = new_obj();
    if flags & 8 != 0 {
        push_entry(&mut t, "scale", f2dot14_at(d, pt, tat));
    } else if flags & 0x40 != 0 {
        push_entry(&mut t, "xscale", f2dot14_at(d, pt, tat));
        push_entry(&mut t, "yscale", f2dot14_at(d, pt + 2, tat + 2));
    } else if flags & 0x80 != 0 {
        push_entry(&mut t, "xscale", f2dot14_at(d, pt, tat));
        push_entry(&mut t, "scale01", f2dot14_at(d, pt + 2, tat + 2));
        push_entry(&mut t, "scale10", f2dot14_at(d, pt + 4, tat + 4));
        push_entry(&mut t, "yscale", f2dot14_at(d, pt + 6, tat + 6));
    }
    assert(jv_entries(t@) =~= transform_fields(flags, d@, pt as int, tat as int));
    t
}

/// Describes the component at `off`, which fits the data.
fn parse_component(d: &[u8], base: u64, off: usize) -> (r: Json)
    requires
        off + 4 <= d@.len(),
        off + 4 + args_size(crate::reader::u16_at(d@, off as int) as u16)
            + transform_size(crate::reader::u16_at(d@, off as int) as u16) <= d@.len(),
        small_len(d@.len() as int),
        base <= 0x4000_0000_0000_0000,
    ensures
        r.jv() == component_value(d@, base as int, off as int),
{
    let flags = be_u16(d, off);
    let pa = off + 4;
    let asz: usize = if flags & 1 != 0 { 4 } else { 2 };
    let pt = pa + asz;
    let tsz: usize = if flags & 8 != 0 { 2 } else if flags & 0x40 != 0 { 4 } else if flags & 0x80 != 0 { 8 } else { 0 };
    let mut o = new_obj();
    push_entry(&mut o, "flags", component_flags_field(flags, base + off as u64));
    push_entry(&mut o, "glyphIndex", parsed_field_wide("uint16", jnum(be_u16(d, off + 2) as u64), base + off as u64 + 2, 2));
    push_arguments(&mut o, d, flags, pa, base + pa as u64);
    let tat = base + pt as u64;
    let t = transform_entries(d, flags, pt, tat);
    if t.len() > 0 {
        push_entry(&mut o, "transform", parsed_field_wide("Transform", jobj(t), tat, tsz as u64));
    }
    assert(jv_entries(o@) =~= component_value(d@, base as int, off as int)->Obj_0[1].1->Obj_0);
    parsed_field_wide("ComponentGlyph", jobj(o), base + off as u64, (pt + tsz - off) as u64)
}

} // verus!

verus! {

/// Describes the components of a composite glyph, shown from `base_offset`
/// on; gives them, where reading stopped and whether a component asked for
/// instructions.
pub fn parse_composite_components(data: &[u8], base_offset: u64) -> (r: (Vec<Json>, usize, bool))
    requires
        small_len(data@.len() as int),
        base_offset <= 0x4000_0000_0000_0000,
    ensures
        (jv_seq(r.0@), r.1 as int, r.2) == comp_list(data@, base_offset as int, 0),
        r.1 <= data@.len(),
{
    let ghost total = comp_list(data@, base_offset as int, 0);
    let mut fields = new_arr();
    let mut offset: usize = 0;
    let mut more = true;
    let mut has_instructions = false;
    while more && offset < data.len()
        invariant
            offset <= data@.len(),
            small_len(data@.len() as int),
            base_offset <= 0x4000_0000_0000_0000,
            total == comp_list(data@, base_offset as int, 0),
            more ==> {
                let rest = comp_list(data@, base_offset as int, offset as int);
                &&& jv_seq(fields@) + rest.0 == total.0
                &&& rest.1 == total.1
                &&& (has_instructions || rest.2) == total.2
            },
            !more ==> jv_seq(fields@) == total.0 && offset == total.1 && has_instructions == total.2,
        decreases 2 * (data@.len() - offset) + if more { 1int } else { 0int },
    {
        let start = offset;
        let ghost prev = jv_seq(fields@);
        let ghost h0 = has_instructions;
        let ghost rest = comp_list(data@, base_offset as int, start as int);
        if offset + 4 > data.len() {
            more = false;
        } else {
            let flags = be_u16(data, offset);
            let asz: usize = if flags & 1 != 0 { 4 } else { 2 };
            let tsz: usize = if flags & 8 != 0 { 2 } else if flags & 0x40 != 0 { 4 } else if flags & 0x80 != 0 { 8 } else { 0 };
            if offset + 4 + asz > data.len() {
                offset = offset + 4;
                more = false;
            } else if offset + 4 + asz + tsz > data.len() {
                offset = offset + 4 + asz;
                more = false;
            } else {
                offset = offset + 4 + asz + tsz;
                push_item(&mut fields, parse_component(data, base_offset, start));
                if flags & 0x100 != 0 {
                    has_instructions = true;
                }
                more = flags & 0x20 != 0;
                proof {
                    if more {
                        let next = comp_list(data@, base_offset as int, offset as int);
                        assert(jv_seq(fields@) + next.0 =~= prev + rest.0);
                    } else {
                        assert(jv_seq(fields@) =~= prev + rest.0);
                    }
                }
            }
        }
        proof {
            if !more {
                assert(jv_seq(fields@) =~= prev + rest.0);
            }
        }
    }
    proof {
        if more {
            let rest = comp_list(data@, base_offset as int, offset as int);
            assert(rest.0 =~= Seq::<JsonV>::empty());
            assert(jv_seq(fields@) =~= total.0);
        }
    }
    (fields, offset, has_instructions)
}

} // verus!

verus! {

// ---- Glyphs ----

/// Offset `idx` of the location table, where the table holds it.
pub open spec fn loca_get(l: Seq<u8>, long: bool, idx: int) -> Option<int> {
    let bl = if long { 4int } else { 2int };
    if 0 <= idx && idx < l.len() as int / bl { Some(crate::loca::raw_offset(l, idx, long)) } else { None }
}

pub open spec fn glyph_error() -> JsonV {
    JsonV::Obj(seq![("error"@, JsonV::Str(crate::font::out_of_bounds()))])
}

pub open spec fn i16f(gd: Seq<u8>, rel: int, s: int) -> JsonV {
    sfield("int16"@, JsonV::Num(crate::reader::i16_at(gd, rel)), s + rel, 2)
}

/// The header of the glyph at `s`, whose data is `total` bytes long.
pub open spec fn header_value(gd: Seq<u8>, s: int, total: int, simple: bool) -> JsonV {
    sfield(
        "GlyphHeader"@,
        JsonV::Obj(
            seq![
                (
                    "numberOfContours"@,
                    sfield("int16"@, JsonV::Num(if simple { crate::reader::i16_at(gd, 0) } else { -1 }), s, 2),
                ),
                ("xMin"@, i16f(gd, 2, s)),
                ("yMin"@, i16f(gd, 4, s)),
                ("xMax"@, i16f(gd, 6, s)),
                ("yMax"@, i16f(gd, 8, s)),
            ],
        ),
        s,
        if total < 10 { total } else { 10 },
    )
}

/// A glyph header shows numberOfContours, then the bounding box in the order
/// xMin, yMin, xMax, yMax, each the signed 16-bit number at its offset in the
/// glyph's data (2, 4, 6 and 8), shown at that offset past the glyph's start.
pub proof fn glyph_header_fields_read_their_bytes(gd: Seq<u8>, s: int, total: int, simple: bool)
    ensures
        ({
            let e = header_value(gd, s, total, simple)->Obj_0[1].1->Obj_0;
            &&& e.len() == 5
            &&& e[0] == ("numberOfContours"@, sfield("int16"@, JsonV::Num(if simple { crate::reader::i16_at(gd, 0) } else { -1 }), s, 2))
            &&& e[1] == ("xMin"@, sfield("int16"@, JsonV::Num(crate::reader::i16_at(gd, 2)), s + 2, 2))
            &&& e[2] == ("yMin"@, sfield("int16"@, JsonV::Num(crate::reader::i16_at(gd, 4)), s + 4, 2))
            &&& e[3] == ("xMax"@, sfield("int16"@, JsonV::Num(crate::reader::i16_at(gd, 6)), s + 6, 2))
            &&& e[4] == ("yMax"@, sfield("int16"@, JsonV::Num(crate::reader::i16_at(gd, 8)), s + 8, 2))
        }),
{
}

/// The parts of a simple glyph: (contour count read, instruction length,
/// instructions there, coordinate data).
pub open spec fn simple_parts(gd: Seq<u8>) -> (int, int, bool, Seq<u8>) {
    let nc = crate::reader::i16_at(gd, 0);
    let gl = gd.len() as int;
    let ep_n = if 10 + 2 * nc <= gl { nc } else { 0 };
    let il = if 12 + 2 * nc <= gl { crate::reader::u16_at(gd, 10 + 2 * nc) } else { 0 };
    let ins = 12 + 2 * nc + il <= gl;
    let data = if ins { gd.subrange(12 + 2 * nc + il, gl) } else { seq![] };
    (ep_n, il, ins, data)
}

/// The number of points of a simple glyph: one past its last contour end
/// (in 16 bits), or none without contour ends.
pub open spec fn point_count(gd: Seq<u8>) -> int {
    let (ep_n, _, _, _) = simple_parts(gd);
    if ep_n > 0 { (crate::reader::u16_at(gd, 10 + 2 * (ep_n - 1)) + 1) % 0x10000 } else { 0 }
}

/// The byte counts of the flags and coordinates, where they can be read and fit.
pub open spec fn coord_lens(gd: Seq<u8>) -> (int, int, int) {
    let (_, _, _, data) = simple_parts(gd);
    match spec_resolve_coords_len(data, point_count(gd)) {
        Some((f, x, y)) => if f + x + y <= data.len() { (f, x, y) } else { (0, 0, 0) },
        None => (0, 0, 0),
    }
}

pub open spec fn simple_fields(gd: Seq<u8>, s: int) -> Seq<(Seq<char>, JsonV)> {
    let curr = s + 10;
    let nc = crate::reader::i16_at(gd, 0);
    let (ep_n, il, ins, data) = simple_parts(gd);
    let (f, x, y) = coord_lens(gd);
    let flags = data.subrange(0, f);
    let xs = data.subrange(f, f + x);
    let ys = data.subrange(f + x, f + x + y);
    let fo = curr + 2 * nc + 2 + il;
    let xo = fo + f;
    let yo = xo + x;
    seq![
        (
            "endPtsOfContours"@,
            sfield(
                "uint16[]"@,
                JsonV::Arr(Seq::new(ep_n as nat, |k: int| sfield("uint16"@, JsonV::Num(crate::reader::u16_at(gd, 10 + 2 * k)), curr + 2 * k, 2))),
                curr,
                2 * nc,
            ),
        ),
        ("instructionLength"@, sfield("uint16"@, JsonV::Num(il), curr + 2 * nc, 2)),
        (
            "instructions"@,
            sfield(
                "uint8[]"@,
                JsonV::Arr(
                    if ins {
                        Seq::new(il as nat, |k: int| sfield("uint8"@, JsonV::Num(gd[12 + 2 * nc + k] as int), curr + 2 * nc + 2 + k, 1))
                    } else {
                        seq![]
                    },
                ),
                curr + 2 * nc + 2,
                il,
            ),
        ),
        (
            "flags"@,
            sfield(
                "uint8[]"@,
                JsonV::Arr(Seq::new(f as nat, |k: int| sfield_sum("uint8"@, JsonV::Num(flags[k] as int), fo + k, 1, spec_format_simple_flag(flags[k])))),
                fo,
                f,
            ),
        ),
        ("xCoordinates"@, sfield("(uint8|int16)[]"@, JsonV::Arr(coord_fields(flags, xs, true, xo, 0, 0)), xo, x)),
        ("yCoordinates"@, sfield("(uint8|int16)[]"@, JsonV::Arr(coord_fields(flags, ys, false, yo, 0, 0)), yo, y)),
    ]
}

pub open spec fn composite_fields(gd: Seq<u8>, s: int) -> Seq<(Seq<char>, JsonV)> {
    let d = gd.subrange(10, gd.len() as int);
    let (comps, cl, hi) = comp_list(d, s + 20, 0);
    let at = s + 20 + cl;
    seq![("components"@, sfield("ComponentGlyph[]"@, JsonV::Arr(comps), s + 20, cl))] + if hi && cl + 2 <= d.len() {
        let n = crate::reader::u16_at(d, cl);
        seq![("instructionLength"@, sfield("uint16"@, JsonV::Num(n), at, 2))] + if cl + 2 + n <= d.len() {
            seq![
                (
                    "instructions"@,
                    sfield("uint8[]"@, JsonV::Arr(Seq::new(n as nat, |k: int| sfield("uint8"@, JsonV::Num(d[cl + 2 + k] as int), at + 2 + k, 1))), at + 2, n),
                ),
            ]
        } else {
            seq![]
        }
    } else {
        seq![]
    }
}

/// A glyph that can be read, at `s` with `total` bytes, described.
#[verifier::opaque]
pub open spec fn glyph_obj(gd: Seq<u8>, s: int, total: int, simple: bool) -> JsonV {
    let rest = if total > 10 { total - 10 } else { 0 };
    JsonV::Obj(
        seq![
            ("header"@, header_value(gd, s, total, simple)),
            if simple {
                ("simple"@, sfield("SimpleGlyph"@, JsonV::Obj(simple_fields(gd, s)), s + 10, rest))
            } else {
                ("composite"@, sfield("CompositeGlyph"@, JsonV::Obj(composite_fields(gd, s)), s + 10, rest))
            },
        ],
    )
}

/// Glyph `i`, described from its location offsets and the glyph data: an
/// empty object for an empty glyph, and an error where its offsets or data
/// cannot be read.
pub open spec fn glyph_value(l: Seq<u8>, long: bool, g: Seq<u8>, i: int) -> JsonV {
    match (loca_get(l, long, i), loca_get(l, long, i + 1)) {
        (Some(s), Some(e)) => if s == e {
            JsonV::Obj(seq![])
        } else if s > e || e > g.len() {
            glyph_error()
        } else {
            let gd = g.subrange(s, e);
            if gd.len() < 2 {
                glyph_error()
            } else if crate::reader::i16_at(gd, 0) >= 0 {
                if gd.len() < 12 { glyph_error() } else { glyph_obj(gd, s, e - s, true) }
            } else {
                if gd.len() < 10 { glyph_error() } else { glyph_obj(gd, s, e - s, false) }
            }
        },
        _ => glyph_error(),
    }
}

} // verus!

verus! {

fn u16_items(d: &[u8], start: usize, n: usize, base: u64) -> (r: Vec<Json>)
    requires
        start + 2 * n <= d@.len(),
        small_len(d@.len() as int),
        base <= 0x4000_0000_0000_0000,
    ensures
        jv_seq(r@) == Seq::new(n as nat, |k: int| sfield("uint16"@, JsonV::Num(crate::reader::u16_at(d@, start + 2 * k)), base + 2 * k, 2)),
{
    let ghost want = Seq::new(n as nat, |k: int| sfield("uint16"@, JsonV::Num(crate::reader::u16_at(d@, start + 2 * k)), base + 2 * k, 2));
    let mut items = new_arr();
    let mut k: usize = 0;
    while k < n
        invariant
            k <= n,
            start + 2 * n <= d@.len(),
            small_len(d@.len() as int),
            base <= 0x4000_0000_0000_0000,
            want == Seq::new(n as nat, |k: int| sfield("uint16"@, JsonV::Num(crate::reader::u16_at(d@, start + 2 * k)), base + 2 * k, 2)),
            jv_seq(items@) == want.take(k as int),
        decreases n - k,
    {
        push_item(&mut items, parsed_field_wide("uint16", jnum(be_u16(d, start + 2 * k) as u64), base + 2 * (k as u64), 2));
        assert(want.take(k + 1) =~= want.take(k as int).push(want[k as int]));
        k = k + 1;
    }
    assert(want.take(n as int) =~= want);
    items
}

fn u8_items(d: &[u8], start: usize, n: usize, base: u64) -> (r: Vec<Json>)
    requires
        start + n <= d@.len(),
        small_len(d@.len() as int),
        base <= 0x4000_0000_0000_0000,
    ensures
        jv_seq(r@) == Seq::new(n as nat, |k: int| sfield("uint8"@, JsonV::Num(d@[start + k] as int), base + k, 1)),
{
    let ghost want = Seq::new(n as nat, |k: int| sfield("uint8"@, JsonV::Num(d@[start + k] as int), base + k, 1));
    let mut items = new_arr();
    let mut k: usize = 0;
    while k < n
        invariant
            k <= n,
            start + n <= d@.len(),
            small_len(d@.len() as int),
            base <= 0x4000_0000_0000_0000,
            want == Seq::new(n as nat, |k: int| sfield("uint8"@, JsonV::Num(d@[start + k] as int), base + k, 1)),
            jv_seq(items@) == want.take(k as int),
        decreases n - k,
    {
        push_item(&mut items, parsed_field_wide("uint8", jnum(d[start + k] as u64), base + (k as u64), 1));
        assert(want.take(k + 1) =~= want.take(k as int).push(want[k as int]));
        k = k + 1;
    }
    assert(want.take(n as int) =~= want);
    items
}

fn flag_items(flags: &[u8], base: u64) -> (r: Vec<Json>)
    requires
        small_len(flags@.len() as int),
        base <= 0x4000_0000_0000_0000,
    ensures
        jv_seq(r@) == Seq::new(
            flags@.len(),
            |k: int| sfield_sum("uint8"@, JsonV::Num(flags@[k] as int), base + k, 1, spec_format_simple_flag(flags@[k])),
        ),
{
    let ghost want = Seq::new(
        flags@.len(),
        |k: int| sfield_sum("uint8"@, JsonV::Num(flags@[k] as int), base + k, 1, spec_format_simple_flag(flags@[k])),
    );
    let mut items = new_arr();
    let mut k: usize = 0;
    while k < flags.len()
        invariant
            k <= flags@.len(),
            small_len(flags@.len() as int),
            base <= 0x4000_0000_0000_0000,
            want == Seq::new(
                flags@.len(),
                |k: int| sfield_sum("uint8"@, JsonV::Num(flags@[k] as int), base + k, 1, spec_format_simple_flag(flags@[k])),
            ),
            jv_seq(items@) == want.take(k as int),
        decreases flags@.len() - k,
    {
        let mut f = new_obj();
        push_entry(&mut f, "type", Json::Str(text("uint8")));
        push_entry(&mut f, "value", jnum(flags[k] as u64));
        push_entry(&mut f, "offset", jnum(base + k as u64));
        push_entry(&mut f, "length", jnum(1));
        push_entry(&mut f, "summary", Json::Str(format_simple_flag(flags[k])));
        assert(jv_entries(f@) =~= want[k as int]->Obj_0);
        push_item(&mut items, jobj(f));
        assert(want.take(k + 1) =~= want.take(k as int).push(want[k as int]));
        k = k + 1;
    }
    assert(want.take(flags@.len() as int) =~= want);
    items
}

/// The layout of a simple glyph: contour end count, instruction length,
/// whether the instructions are there, the data after them, and the byte
/// counts of its flags and coordinates.
fn simple_layout(gd: &[u8]) -> (r: (usize, usize, bool, &[u8], usize, usize, usize))
    requires
        gd@.len() >= 12,
        crate::reader::i16_at(gd@, 0) >= 0,
        small_len(gd@.len() as int),
    ensures
        (r.0 as int, r.1 as int, r.2, r.3@) == simple_parts(gd@),
        (r.4 as int, r.5 as int, r.6 as int) == coord_lens(gd@),
        r.0 <= 0x7fff,
        r.1 <= 0xffff,
        r.4 + r.5 + r.6 <= r.3@.len(),
        r.3@.len() <= gd@.len(),
{
    let gl = gd.len();
    let nc = be_i16(gd, 0) as usize;
    let ep_n: usize = if 10 + 2 * nc <= gl { nc } else { 0 };
    let il: usize = if 12 + 2 * nc <= gl { be_u16(gd, 10 + 2 * nc) as usize } else { 0 };
    let ins = 12 + 2 * nc + il <= gl;
    let data: &[u8] = if ins { vstd::slice::slice_subrange(gd, 12 + 2 * nc + il, gl) } else { vstd::slice::slice_subrange(gd, 0, 0) };
    proof {
        if !ins {
            assert(gd@.subrange(0, 0) =~= Seq::<u8>::empty());
        }
    }
    let np: u16 = if ep_n > 0 {
        let last = be_u16(gd, 10 + 2 * (ep_n - 1));
        if last == 0xFFFF { 0 } else { last + 1 }
    } else {
        0
    };
    assert(np == point_count(gd@));
    let (f, x, y): (usize, usize, usize) = match resolve_coords_len(data, np) {
        Ok((f, x, y)) => if (f as usize) + (x as usize) + (y as usize) <= data.len() {
            (f as usize, x as usize, y as usize)
        } else {
            (0, 0, 0)
        },
        Err(()) => (0, 0, 0),
    };
    (ep_n, il, ins, data, f, x, y)
}

/// Describes the fields of a simple glyph at `s`.
fn simple_glyph_fields(gd: &[u8], s: u64) -> (r: Vec<(String, Json)>)
    requires
        gd@.len() >= 12,
        crate::reader::i16_at(gd@, 0) >= 0,
        small_len(gd@.len() as int),
        gd@.len() <= 0xffff_ffff,
        s <= 0x1_0000_0000_0000,
    ensures
        jv_entries(r@) == simple_fields(gd@, s as int),
{
    let nc = be_i16(gd, 0) as u64;
    let (ep_n, il, ins, data, f, x, y) = simple_layout(gd);
    let curr = s + 10;
    let flags = vstd::slice::slice_subrange(data, 0, f);
    let xs = vstd::slice::slice_subrange(data, f, f + x);
    let ys = vstd::slice::slice_subrange(data, f + x, f + x + y);
    let fo = curr + 2 * nc + 2 + (il as u64);
    let xo = fo + f as u64;
    let yo = xo + x as u64;
    let mut o = new_obj();
    push_entry(&mut o, "endPtsOfContours", parsed_field_wide("uint16[]", jarr(u16_items(gd, 10, ep_n, curr)), curr, 2 * nc));
    push_entry(&mut o, "instructionLength", parsed_field_wide("uint16", jnum(il as u64), curr + 2 * nc, 2));
    let ins_items = if ins { u8_items(gd, 12 + 2 * (nc as usize), il, curr + 2 * nc + 2) } else { new_arr() };
    push_entry(&mut o, "instructions", parsed_field_wide("uint8[]", jarr(ins_items), curr + 2 * nc + 2, il as u64));
    push_entry(&mut o, "flags", parsed_field_wide("uint8[]", jarr(flag_items(flags, fo)), fo, f as u64));
    let xc = parse_coordinate_array(flags, xs, true, xo);
    push_entry(&mut o, "xCoordinates", parsed_field_wide("(uint8|int16)[]", jarr(xc), xo, x as u64));
    let yc = parse_coordinate_array(flags, ys, false, yo);
    push_entry(&mut o, "yCoordinates", parsed_field_wide("(uint8|int16)[]", jarr(yc), yo, y as u64));
    assert(jv_entries(o@) =~= simple_fields(gd@, s as int));
    o
}

/// Describes the fields of a composite glyph at `s`.
fn composite_glyph_fields(gd: &[u8], s: u64) -> (r: Vec<(String, Json)>)
    requires
        gd@.len() >= 10,
        small_len(gd@.len() as int),
        gd@.len() <= 0xffff_ffff,
        s <= 0x1_0000_0000_0000,
    ensures
        jv_entries(r@) == composite_fields(gd@, s as int),
{
    let d = vstd::slice::slice_subrange(gd, 10, gd.len());
    let (comps, cl, hi) = parse_composite_components(d, s + 20);
    let at = s + 20 + cl as u64;
    let mut o = new_obj();
    push_entry(&mut o, "components", parsed_field_wide("ComponentGlyph[]", jarr(comps), s + 20, cl as u64));
    if hi && cl + 2 <= d.len() {
        let n = be_u16(d, cl);
        push_entry(&mut o, "instructionLength", parsed_field_wide("uint16", jnum(n as u64), at, 2));
        if cl + 2 + (n as usize) <= d.len() {
            let items = u8_items(d, cl + 2, n as usize, at + 2);
            push_entry(&mut o, "instructions", parsed_field_wide("uint8[]", jarr(items), at + 2, n as u64));
        }
    }
    assert(jv_entries(o@) =~= composite_fields(gd@, s as int));
    o
}

fn i16_field(gd: &[u8], rel: usize, s: u64) -> (r: Json)
    requires
        rel + 2 <= gd@.len(),
        s <= 0x1_0000_0000_0000,
        rel <= 8,
    ensures
        r.jv() == i16f(gd@, rel as int, s as int),
{
    parsed_field_wide("int16", jint(be_i16(gd, rel) as i64), s + rel as u64, 2)
}

/// Describes a glyph that can be read, at `s`.
fn glyph_object(gd: &[u8], s: u64, simple: bool) -> (r: Json)
    requires
        gd@.len() >= 10,
        simple ==> gd@.len() >= 12 && crate::reader::i16_at(gd@, 0) >= 0,
        small_len(gd@.len() as int),
        gd@.len() <= 0xffff_ffff,
        s <= 0x1_0000_0000_0000,
    ensures
        r.jv() == glyph_obj(gd@, s as int, gd@.len() as int, simple),
{
    let total = gd.len() as u64;
    let nc: i64 = if simple { be_i16(gd, 0) as i64 } else { -1 };
    let mut h = new_obj();
    push_entry(&mut h, "numberOfContours", parsed_field_wide("int16", jint(nc), s, 2));
    push_entry(&mut h, "xMin", i16_field(gd, 2, s));
    push_entry(&mut h, "yMin", i16_field(gd, 4, s));
    push_entry(&mut h, "xMax", i16_field(gd, 6, s));
    push_entry(&mut h, "yMax", i16_field(gd, 8, s));
    let hl: u64 = if total < 10 { total } else { 10 };
    assert(jv_entries(h@) =~= header_value(gd@, s as int, total as int, simple)->Obj_0[1].1->Obj_0);
    let header = parsed_field_wide("GlyphHeader", jobj(h), s, hl);
    assert(header.jv() == header_value(gd@, s as int, total as int, simple));
    let rest: u64 = if total > 10 { total - 10 } else { 0 };
    let mut o = new_obj();
    push_entry(&mut o, "header", header);
    if simple {
        let f = simple_glyph_fields(gd, s);
        push_entry(&mut o, "simple", parsed_field_wide("SimpleGlyph", jobj(f), s + 10, rest));
    } else {
        let f = composite_glyph_fields(gd, s);
        push_entry(&mut o, "composite", parsed_field_wide("CompositeGlyph", jobj(f), s + 10, rest));
    }
    reveal(glyph_obj);
    assert(jv_entries(o@) =~= glyph_obj(gd@, s as int, gd@.len() as int, simple)->Obj_0);
    jobj(o)
}

fn loca_offset(l: &[u8], long: bool, idx: usize) -> (r: Option<u64>)
    requires
        small_len(l@.len() as int),
    ensures
        match r {
            Some(v) => loca_get(l@, long, idx as int) == Some(v as int) && v <= 0xffff_ffff,
            None => loca_get(l@, long, idx as int) is None,
        },
{
    if long {
        if idx < l.len() / 4 {
            Some(be_u32(l, 4 * idx) as u64)
        } else {
            None
        }
    } else {
        if idx < l.len() / 2 {
            Some(2 * (be_u16(l, 2 * idx) as u64))
        } else {
            None
        }
    }
}

fn glyph_error_value() -> (r: Json)
    ensures
        r.jv() == glyph_error(),
{
    let mut o = new_obj();
    push_entry(&mut o, "error", jstr("An offset was out of bounds"));
    assert(jv_entries(o@) =~= glyph_error()->Obj_0);
    jobj(o)
}

/// Describes glyph `i` from the location table `loca` (long offsets where
/// `long`) and the glyph data `glyf`.
pub fn parse_single_glyph(loca: &[u8], long: bool, glyf: &[u8], i: usize) -> (r: Json)
    requires
        small_len(loca@.len() as int),
        small_len(glyf@.len() as int),
    ensures
        r.jv() == glyph_value(loca@, long, glyf@, i as int),
{
    if i >= usize::MAX / 4 {
        assert(loca_get(loca@, long, i as int) is None);
        return glyph_error_value();
    }
    let so = loca_offset(loca, long, i);
    let eo = loca_offset(loca, long, i + 1);
    match (so, eo) {
        (Some(s), Some(e)) => {
            if s == e {
                let o = new_obj();
                assert(jv_entries(o@) =~= Seq::<(Seq<char>, JsonV)>::empty());
                jobj(o)
            } else if s > e || e > glyf.len() as u64 {
                glyph_error_value()
            } else {
                let gd = vstd::slice::slice_subrange(glyf, s as usize, e as usize);
                if gd.len() < 2 {
                    glyph_error_value()
                } else if be_i16(gd, 0) >= 0 {
                    if gd.len() < 12 { glyph_error_value() } else { glyph_object(gd, s, true) }
                } else {
                    if gd.len() < 10 { glyph_error_value() } else { glyph_object(gd, s, false) }
                }
            }
        },
        _ => glyph_error_value(),
    }
}

} // verus!

verus! {

// ---- The glyph table ----

pub open spec fn glyf_tag() -> Seq<u8> {
    seq![103u8, 108u8, 121u8, 102u8]
}

/// What the glyph table is read from: the location table, whether its
/// offsets are long, the glyph data and the glyph count.
pub struct GlyphSources {
    pub loca: Vec<u8>,
    pub long: bool,
    pub glyf: Vec<u8>,
    pub num_glyphs: u16,
}

pub open spec fn sources_view(g: GlyphSources) -> (Seq<u8>, bool, Seq<u8>, int) {
    (g.loca@, g.long, g.glyf@, g.num_glyphs as int)
}

/// The tables that the glyphs are read from, in the order in which they are
/// loaded (font header, location table, glyph data, maximum profile), or the
/// first error.
pub open spec fn spec_glyph_sources(font: Seq<u8>) -> Result<(Seq<u8>, bool, Seq<u8>, int), Seq<char>> {
    match spec_load(font, crate::loca::head_tag()) {
        Err(e) => Err(e),
        Ok(h) => if h.len() < 54 {
            Err(out_of_bounds())
        } else {
            let long = crate::reader::i16_at(h, 50) == 1;
            match spec_load(font, crate::loca::loca_tag()) {
                Err(e) => Err(e),
                Ok(l) => if l.len() as int % (if long { 4int } else { 2int }) != 0 {
                    Err("Specified array length not a multiple of item size"@)
                } else {
                    match spec_load(font, glyf_tag()) {
                        Err(e) => Err(e),
                        Ok(g) => match spec_load(font, crate::loca::maxp_tag()) {
                            Err(e) => Err(e),
                            Ok(m) => if m.len() < 6 {
                                Err(out_of_bounds())
                            } else {
                                Ok((l, long, g, crate::reader::u16_at(m, 4)))
                            },
                        },
                    }
                },
            }
        },
    }
}

/// Loads the tables that the glyphs are read from.
pub fn load_glyph_sources(font: &[u8]) -> (r: Result<GlyphSources, String>)
    requires
        small_len(font@.len() as int),
    ensures
        match r {
            Ok(g) => spec_glyph_sources(font@) == Ok::<(Seq<u8>, bool, Seq<u8>, int), Seq<char>>(sources_view(g)) && g.loca@.len() <= font@.len()
                && g.glyf@.len() <= font@.len(),
            Err(e) => spec_glyph_sources(font@) == Err::<(Seq<u8>, bool, Seq<u8>, int), Seq<char>>(e@),
        },
{
    let htag: Vec<u8> = vec![104u8, 101u8, 97u8, 100u8];
    assert(htag@ =~= crate::loca::head_tag());
    let h = match load_table(font, htag.as_slice()) {
        Err(e) => return Err(e),
        Ok(h) => h,
    };
    if h.len() < 54 {
        return Err(text("An offset was out of bounds"));
    }
    let long = be_i16(h.as_slice(), 50) == 1;
    let ltag: Vec<u8> = vec![108u8, 111u8, 99u8, 97u8];
    assert(ltag@ =~= crate::loca::loca_tag());
    let l = match load_table(font, ltag.as_slice()) {
        Err(e) => return Err(e),
        Ok(l) => l,
    };
    let bl: usize = if long { 4 } else { 2 };
    if l.len() % bl != 0 {
        return Err(text("Specified array length not a multiple of item size"));
    }
    let gtag: Vec<u8> = vec![103u8, 108u8, 121u8, 102u8];
    assert(gtag@ =~= glyf_tag());
    let g = match load_table(font, gtag.as_slice()) {
        Err(e) => return Err(e),
        Ok(g) => g,
    };
    let mtag: Vec<u8> = vec![109u8, 97u8, 120u8, 112u8];
    assert(mtag@ =~= crate::loca::maxp_tag());
    let m = match load_table(font, mtag.as_slice()) {
        Err(e) => return Err(e),
        Ok(m) => m,
    };
    if m.len() < 6 {
        return Err(text("An offset was out of bounds"));
    }
    Ok(GlyphSources { loca: l, long, glyf: g, num_glyphs: be_u16(m.as_slice(), 4) })
}

/// How many glyphs a batch from `offset` describes: at most `limit`, and at
/// most a thousand, of those that the font has.
pub open spec fn batch_count(num_glyphs: int, offset: int, limit: int) -> int {
    if offset >= num_glyphs {
        0
    } else {
        let left = num_glyphs - offset;
        let a = if left < limit { left } else { limit };
        if a < 1000 { a } else { 1000 }
    }
}

/// Glyph `i`, with its index.
pub open spec fn batch_item(l: Seq<u8>, long: bool, g: Seq<u8>, i: int) -> JsonV {
    JsonV::Obj(seq![("rowIndex"@, JsonV::Num(i)), ("data"@, glyph_value(l, long, g, i))])
}

/// The glyphs `offset .. offset + count`, each with its index.
pub open spec fn batch_items(l: Seq<u8>, long: bool, g: Seq<u8>, offset: int, count: int) -> Seq<JsonV> {
    Seq::new(count as nat, |k: int| batch_item(l, long, g, offset + k))
}

/// A batch of glyphs from `offset` on and where the next batch starts.
pub open spec fn batch_value(src: (Seq<u8>, bool, Seq<u8>, int), offset: int, limit: int) -> JsonV {
    let (l, long, g, n) = src;
    let count = batch_count(n, offset, limit);
    JsonV::Obj(seq![("items"@, JsonV::Arr(batch_items(l, long, g, offset, count))), ("next_offset"@, JsonV::Num(offset + count))])
}

fn batch_entry(src: &GlyphSources, i: usize) -> (r: Json)
    requires
        small_len(src.loca@.len() as int),
        small_len(src.glyf@.len() as int),
    ensures
        r.jv() == batch_item(src.loca@, src.long, src.glyf@, i as int),
{
    let mut o = new_obj();
    push_entry(&mut o, "rowIndex", jnum(i as u64));
    push_entry(&mut o, "data", parse_single_glyph(src.loca.as_slice(), src.long, src.glyf.as_slice(), i));
    assert(jv_entries(o@) =~= batch_item(src.loca@, src.long, src.glyf@, i as int)->Obj_0);
    jobj(o)
}

/// The glyphs of a batch from `offset` on, and how many there are.
fn batch_glyphs(src: &GlyphSources, offset: usize, limit: usize) -> (r: (Vec<Json>, usize))
    requires
        small_len(src.loca@.len() as int),
        small_len(src.glyf@.len() as int),
    ensures
        r.1 == batch_count(src.num_glyphs as int, offset as int, limit as int),
        jv_seq(r.0@) == batch_items(src.loca@, src.long, src.glyf@, offset as int, r.1 as int),
        r.1 > 0 ==> offset + r.1 <= src.num_glyphs,
{
    let n = src.num_glyphs as usize;
    let count: usize = if offset >= n {
        0
    } else {
        let left = n - offset;
        let a = if left < limit { left } else { limit };
        if a < 1000 { a } else { 1000 }
    };
    let ghost want = batch_items(src.loca@, src.long, src.glyf@, offset as int, count as int);
    let mut items = new_arr();
    let mut k: usize = 0;
    while k < count
        invariant
            k <= count,
            count <= 1000,
            count > 0 ==> offset + count <= n,
            small_len(src.loca@.len() as int),
            small_len(src.glyf@.len() as int),
            want == batch_items(src.loca@, src.long, src.glyf@, offset as int, count as int),
            jv_seq(items@) == want.take(k as int),
        decreases count - k,
    {
        push_item(&mut items, batch_entry(src, offset + k));
        assert(want.take(k + 1) =~= want.take(k as int).push(want[k as int]));
        k = k + 1;
    }
    assert(want.take(count as int) =~= want);
    (items, count)
}

/// Describes up to `limit` glyphs (and at most a thousand) from `offset` on.
pub fn glyph_batch(src: &GlyphSources, offset: usize, limit: usize) -> (r: Json)
    requires
        small_len(src.loca@.len() as int),
        small_len(src.glyf@.len() as int),
    ensures
        r.jv() == batch_value(sources_view(*src), offset as int, limit as int),
{
    let (items, count) = batch_glyphs(src, offset, limit);
    let mut o = new_obj();
    push_entry(&mut o, "items", jarr(items));
    push_entry(&mut o, "next_offset", jnum((offset + count) as u64));
    assert(jv_entries(o@) =~= batch_value(sources_view(*src), offset as int, limit as int)->Obj_0);
    jobj(o)
}

pub open spec fn spec_parse_batch(font: Seq<u8>, offset: int, limit: int) -> Result<JsonV, Seq<char>> {
    match spec_glyph_sources(font) {
        Err(e) => Err(e),
        Ok(src) => Ok(batch_value(src, offset, limit)),
    }
}

/// Describes a batch of glyphs of `font`: up to `limit` (and at most a
/// thousand) from `offset` on, and where the next batch starts.
pub fn parse_batch(font: &[u8], offset: usize, limit: usize) -> (r: Result<Json, String>)
    requires
        small_len(font@.len() as int),
    ensures
        parsed_view(r) == spec_parse_batch(font@, offset as int, limit as int),
{
    match load_glyph_sources(font) {
        Err(e) => Err(e),
        Ok(src) => Ok(glyph_batch(&src, offset, limit)),
    }
}

/// The batch that a search by glyph index gives: the glyph `idx` where it
/// is at or after `offset` and in the font, and the end of the glyphs as
/// the next offset.
pub open spec fn index_batch_value(src: (Seq<u8>, bool, Seq<u8>, int), offset: int, idx: Option<int>) -> JsonV {
    let (l, long, g, n) = src;
    let items = match idx {
        Some(i) => if offset <= i && i < n { seq![batch_item(l, long, g, i)] } else { seq![] },
        None => seq![],
    };
    JsonV::Obj(seq![("items"@, JsonV::Arr(items)), ("next_offset"@, JsonV::Num(n))])
}

pub open spec fn spec_parse_index_batch(font: Seq<u8>, offset: int, idx: Option<int>) -> Result<JsonV, Seq<char>> {
    match spec_glyph_sources(font) {
        Err(e) => Err(e),
        Ok(src) => Ok(index_batch_value(src, offset, idx)),
    }
}

/// Describes the glyph that a search by index asks for (`None` where the
/// query is not an index).
pub fn parse_index_batch(font: &[u8], offset: usize, idx: Option<usize>) -> (r: Result<Json, String>)
    requires
        small_len(font@.len() as int),
    ensures
        parsed_view(r) == spec_parse_index_batch(font@, offset as int, match idx { Some(i) => Some(i as int), None => None }),
{
    let src = match load_glyph_sources(font) {
        Err(e) => return Err(e),
        Ok(src) => src,
    };
    let mut items = new_arr();
    match idx {
        Some(i) => {
            if offset <= i && i < src.num_glyphs as usize {
                push_item(&mut items, batch_entry(&src, i));
            }
        },
        None => {},
    }
    let mut o = new_obj();
    push_entry(&mut o, "items", jarr(items));
    push_entry(&mut o, "next_offset", jnum(src.num_glyphs as u64));
    proof {
        let iv = match idx { Some(i) => Some(i as int), None => None };
        assert(jv_entries(o@) =~= index_batch_value(sources_view(src), offset as int, iv)->Obj_0);
    }
    Ok(jobj(o))
}

/// The glyph table of a font: its glyph count and its first hundred glyphs,
/// with the command that loads the others.
pub open spec fn spec_parse(font: Seq<u8>) -> Result<JsonV, Seq<char>> {
    match spec_load(font, crate::loca::maxp_tag()) {
        Err(e) => Err(e),
        Ok(m) => if m.len() < 6 {
            Err(out_of_bounds())
        } else {
            match spec_parse_batch(font, 0, 100) {
                Err(e) => Err(e),
                Ok(b) => Ok(
                    JsonV::Obj(
                        seq![
                            ("_is_lazy_array"@, JsonV::Bool(true)),
                            ("lazy_command"@, JsonV::Str("parse_glyf_batch"@)),
                            ("total"@, JsonV::Num(crate::reader::u16_at(m, 4))),
                            ("loaded"@, b->Obj_0[0].1),
                        ],
                    ),
                ),
            }
        },
    }
}

/// Describes the glyph table of a font.
pub fn parse(font: &[u8]) -> (r: Result<Json, String>)
    requires
        small_len(font@.len() as int),
    ensures
        parsed_view(r) == spec_parse(font@),
{
    let mtag: Vec<u8> = vec![109u8, 97u8, 120u8, 112u8];
    assert(mtag@ =~= crate::loca::maxp_tag());
    let m = match load_table(font, mtag.as_slice()) {
        Err(e) => return Err(e),
        Ok(m) => m,
    };
    if m.len() < 6 {
        return Err(text("An offset was out of bounds"));
    }
    let total = be_u16(m.as_slice(), 4);
    let src = match load_glyph_sources(font) {
        Err(e) => return Err(e),
        Ok(src) => src,
    };
    let (items, _count) = batch_glyphs(&src, 0, 100);
    let loaded = jarr(items);
    let mut o = new_obj();
    push_entry(&mut o, "_is_lazy_array", Json::Bool(true));
    push_entry(&mut o, "lazy_command", jstr("parse_glyf_batch"));
    push_entry(&mut o, "total", jnum(total as u64));
    push_entry(&mut o, "loaded", loaded);
    assert(jv_entries(o@) =~= spec_parse(font@)->Ok_0->Obj_0);
    Ok(jobj(o))
}

/// Lazy loading pages through the glyphs without a gap or an overlap: a
/// batch of `a` glyphs from `offset`, followed by a batch of `b` glyphs
/// from where it said the next batch starts, holds the same glyphs as one
/// batch of `a + b` from `offset` (a batch holds at most a thousand).
pub proof fn consecutive_batches_tile(
    l: Seq<u8>,
    long: bool,
    g: Seq<u8>,
    num_glyphs: u16,
    offset: nat,
    a: nat,
    b: nat,
)
    requires
        a + b <= 1000,
    ensures
        ({
            let n = num_glyphs as int;
            let c1 = batch_count(n, offset as int, a as int);
            let next = offset + c1;
            let c2 = batch_count(n, next, b as int);
            batch_items(l, long, g, offset as int, c1) + batch_items(l, long, g, next, c2)
                == batch_items(l, long, g, offset as int, batch_count(n, offset as int, (a + b) as int))
        }),
{
    let n = num_glyphs as int;
    let c1 = batch_count(n, offset as int, a as int);
    let next = offset + c1;
    let c2 = batch_count(n, next, b as int);
    let c = batch_count(n, offset as int, (a + b) as int);
    assert(c1 + c2 == c);
    assert(batch_items(l, long, g, offset as int, c1) + batch_items(l, long, g, next, c2)
        =~= batch_items(l, long, g, offset as int, c));
}

/// A batch from the start of a font with glyphs begins with glyph 0, and
/// each batch lists its glyphs in order from its offset.
pub proof fn batch_starts_at_offset(l: Seq<u8>, long: bool, g: Seq<u8>, num_glyphs: u16, offset: nat, limit: nat)
    ensures
        ({
            let c = batch_count(num_glyphs as int, offset as int, limit as int);
            &&& 0 <= c <= limit
            &&& c <= 1000
            &&& (offset < num_glyphs && limit > 0 ==> c > 0)
            &&& offset + c <= num_glyphs || c == 0
            &&& forall|k: int| 0 <= k < c ==> #[trigger] batch_items(l, long, g, offset as int, c)[k]
                == batch_item(l, long, g, offset + k)
        }),
{
}

/// The glyph table and the location table agree: where the location table's
/// description shows offset `i`, it shows the offset at which the glyph
/// table's description of glyph `i` places its header.
pub proof fn glyph_stands_at_its_location(l: Seq<u8>, long: bool, g: Seq<u8>, num_glyphs: u16, i: nat)
    ensures
        ({
            let shown = crate::loca::loca_value(l, long, num_glyphs as int)->Obj_0[0].1->Obj_0[1].1->Arr_0;
            i < shown.len() ==> shown[i as int]->Obj_0[1].1 == JsonV::Num(crate::loca::raw_offset(l, i as int, long))
        }),
        ({
            let v = glyph_value(l, long, g, i as int);
            v->Obj_0.len() > 0 && v->Obj_0[0].0 == "header"@ ==> field_span(v->Obj_0[0].1) is Some
                && field_span(v->Obj_0[0].1)->Some_0.0 == crate::loca::raw_offset(l, i as int, long)
        }),
{
    reveal_strlit("error");
    reveal_strlit("header");
    assert(glyph_error()->Obj_0[0].0 == "error"@);
    assert("error"@.len() != "header"@.len());
    match (loca_get(l, long, i as int), loca_get(l, long, i as int + 1)) {
        (Some(s), Some(e)) => {
            if s != e && !(s > e || e > g.len()) {
                let gd = g.subrange(s, e);
                lemma_glyph_obj_header(gd, s, e - s, crate::reader::i16_at(gd, 0) >= 0);
                assert(s == crate::loca::raw_offset(l, i as int, long));
            }
        },
        _ => {},
    }
}

proof fn lemma_glyph_obj_header(gd: Seq<u8>, s: int, total: int, simple: bool)
    ensures
        glyph_obj(gd, s, total, simple)->Obj_0[0] == ("header"@, header_value(gd, s, total, simple)),
        field_span(header_value(gd, s, total, simple)) == Some((s, if total < 10 { total } else { 10 })),
{
    reveal(glyph_obj);
}

} // verus!
