use vstd::prelude::*;
use vstd::string::StringExecFns;

verus! {

/// A parsed value: the tree that every table parser of this crate produces.
///
/// Fixed-point numbers are kept by their raw integer so that the tree holds
/// no floating-point value; a presentation layer divides them out.
#[derive(Debug)]
pub enum Json {
    Null,
    Bool(bool),
    Int(i64),
    UInt(u64),
    /// A signed 16.16 fixed-point number, by its raw 32-bit value.
    Fixed(i32),
    /// A signed 2.14 fixed-point number, by its raw 16-bit value.
    F2Dot14(i16),
    Str(String),
    Arr(Vec<Json>),
    Obj(Vec<(String, Json)>),
}

/// The mathematical model of a [`Json`] tree.
pub enum JsonV {
    Null,
    Bool(bool),
    Num(int),
    Fixed(int),
    F2Dot14(int),
    Str(Seq<char>),
    Arr(Seq<JsonV>),
    Obj(Seq<(Seq<char>, JsonV)>),
}

pub open spec fn jv_seq(s: Seq<Json>) -> Seq<JsonV>
    decreases s,
{
    Seq::new(s.len(), |i: int| if 0 <= i < s.len() { s[i].jv() } else { JsonV::Null })
}

pub open spec fn jv_entries(s: Seq<(String, Json)>) -> Seq<(Seq<char>, JsonV)>
    decreases s,
{
    Seq::new(
        s.len(),
        |i: int|
            if 0 <= i < s.len() {
                (s[i].0@, s[i].1.jv())
            } else {
                (Seq::empty(), JsonV::Null)
            },
    )
}

impl Json {
    /// The model of this tree.
    pub open spec fn jv(&self) -> JsonV
        decreases self,
    {
        match self {
            Json::Null => JsonV::Null,
            Json::Bool(b) => JsonV::Bool(*b),
            Json::Int(i) => JsonV::Num(*i as int),
            Json::UInt(u) => JsonV::Num(*u as int),
            Json::Fixed(x) => JsonV::Fixed(*x as int),
            Json::F2Dot14(x) => JsonV::F2Dot14(*x as int),
            Json::Str(s) => JsonV::Str(s@),
            Json::Arr(v) => JsonV::Arr(jv_seq(v@)),
            Json::Obj(v) => JsonV::Obj(jv_entries(v@)),
        }
    }
}

/// A described field (a parsed field): an object with the field's type
/// name, its value, and where it stands in the table.
pub open spec fn sfield(ty: Seq<char>, value: JsonV, offset: int, length: int) -> JsonV {
    JsonV::Obj(
        seq![
            ("type"@, JsonV::Str(ty)),
            ("value"@, value),
            ("offset"@, JsonV::Num(offset)),
            ("length"@, JsonV::Num(length)),
        ],
    )
}

/// A described field that also carries a human-readable summary.
pub open spec fn sfield_sum(
    ty: Seq<char>,
    value: JsonV,
    offset: int,
    length: int,
    summary: Seq<char>,
) -> JsonV {
    JsonV::Obj(
        seq![
            ("type"@, JsonV::Str(ty)),
            ("value"@, value),
            ("offset"@, JsonV::Num(offset)),
            ("length"@, JsonV::Num(length)),
            ("summary"@, JsonV::Str(summary)),
        ],
    )
}

/// Where a described field says it stands: its offset and length.
pub open spec fn field_span(v: JsonV) -> Option<(int, int)> {
    match v {
        JsonV::Obj(e) => if e.len() >= 4 && e[2].0 == "offset"@ && e[3].0 == "length"@ {
            match (e[2].1, e[3].1) {
                (JsonV::Num(o), JsonV::Num(l)) => Some((o, l)),
                _ => None,
            }
        } else {
            None
        },
        _ => None,
    }
}

/// Whether a described field stands within `lo .. hi` and is not empty.
pub open spec fn span_within(v: JsonV, lo: int, hi: int) -> bool {
    field_span(v) matches Some((o, l)) && lo <= o && 1 <= l && o + l <= hi
}

/// Whether described field `b` starts where described field `a` ends.
pub open spec fn follows(a: JsonV, b: JsonV) -> bool {
    &&& field_span(a) is Some
    &&& field_span(b) is Some
    &&& field_span(a)->Some_0.0 + field_span(a)->Some_0.1 == field_span(b)->Some_0.0
}

/// Whether a described field starts at `o`.
pub open spec fn starts_at(a: JsonV, o: int) -> bool {
    field_span(a) is Some && field_span(a)->Some_0.0 == o
}

/// An owned copy of a string literal.
pub fn text(lit: &str) -> (r: String)
    ensures
        r@ == lit@,
{
    String::from_str(lit)
}

pub fn jstr(lit: &str) -> (r: Json)
    ensures
        r.jv() == JsonV::Str(lit@),
{
    Json::Str(text(lit))
}

pub fn jnum(v: u64) -> (r: Json)
    ensures
        r.jv() == JsonV::Num(v as int),
{
    Json::UInt(v)
}

pub fn jint(v: i64) -> (r: Json)
    ensures
        r.jv() == JsonV::Num(v as int),
{
    Json::Int(v)
}

pub fn jarr(v: Vec<Json>) -> (r: Json)
    ensures
        r.jv() == JsonV::Arr(jv_seq(v@)),
{
    Json::Arr(v)
}

pub fn jobj(v: Vec<(String, Json)>) -> (r: Json)
    ensures
        r.jv() == JsonV::Obj(jv_entries(v@)),
{
    Json::Obj(v)
}

/// Builds a described field.
pub fn parsed_field(data_type: &str, value: Json, offset: usize, length: usize) -> (r: Json)
    ensures
        r.jv() == sfield(data_type@, value.jv(), offset as int, length as int),
{
    let ghost vj = value.jv();
    let mut v: Vec<(String, Json)> = Vec::new();
    v.push((text("type"), jstr(data_type)));
    v.push((text("value"), value));
    v.push((text("offset"), jnum(offset as u64)));
    v.push((text("length"), jnum(length as u64)));
    let r = Json::Obj(v);
    assert(jv_entries(v@) =~= sfield(data_type@, vj, offset as int, length as int)->Obj_0);
    r
}

/// Builds a described field with a summary.
pub fn parsed_field_sum(
    data_type: &str,
    value: Json,
    offset: usize,
    length: usize,
    summary: String,
) -> (r: Json)
    ensures
        r.jv() == sfield_sum(data_type@, value.jv(), offset as int, length as int, summary@),
{
    let ghost vj = value.jv();
    let ghost sv = summary@;
    let mut v: Vec<(String, Json)> = Vec::new();
    v.push((text("type"), jstr(data_type)));
    v.push((text("value"), value));
    v.push((text("offset"), jnum(offset as u64)));
    v.push((text("length"), jnum(length as u64)));
    v.push((text("summary"), Json::Str(summary)));
    let r = Json::Obj(v);
    assert(jv_entries(v@) =~= sfield_sum(data_type@, vj, offset as int, length as int, sv)->Obj_0);
    r
}

} // verus!

verus! {

/// Appends `key: value` to an object under construction.
pub fn push_entry(o: &mut Vec<(String, Json)>, key: &str, value: Json)
    ensures
        jv_entries(final(o)@) == jv_entries(old(o)@).push((key@, value.jv())),
{
    let ghost vj = value.jv();
    o.push((text(key), value));
    assert(jv_entries(o@) =~= jv_entries(old(o)@).push((key@, vj)));
}

/// Appends an element to an array under construction.
pub fn push_item(a: &mut Vec<Json>, value: Json)
    ensures
        jv_seq(final(a)@) == jv_seq(old(a)@).push(value.jv()),
{
    let ghost vj = value.jv();
    a.push(value);
    assert(jv_seq(a@) =~= jv_seq(old(a)@).push(vj));
}

} // verus!

verus! {

/// An empty object under construction.
pub fn new_obj() -> (r: Vec<(String, Json)>)
    ensures
        jv_entries(r@) == Seq::<(Seq<char>, JsonV)>::empty(),
{
    let r: Vec<(String, Json)> = Vec::new();
    assert(jv_entries(r@) =~= Seq::<(Seq<char>, JsonV)>::empty());
    r
}

/// An empty array under construction.
pub fn new_arr() -> (r: Vec<Json>)
    ensures
        jv_seq(r@) == Seq::<JsonV>::empty(),
{
    let r: Vec<Json> = Vec::new();
    assert(jv_seq(r@) =~= Seq::<JsonV>::empty());
    r
}


/// The model of a parse result: the tree, or the error message.
pub open spec fn parsed_view(r: Result<Json, String>) -> Result<JsonV, Seq<char>> {
    match r {
        Ok(j) => Ok(j.jv()),
        Err(e) => Err(e@),
    }
}

} // verus!

verus! {

/// Builds a described field whose offset and length are wide numbers.
pub fn parsed_field_wide(data_type: &str, value: Json, offset: u64, length: u64) -> (r: Json)
    ensures
        r.jv() == sfield(data_type@, value.jv(), offset as int, length as int),
{
    let ghost vj = value.jv();
    let mut v: Vec<(String, Json)> = Vec::new();
    v.push((text("type"), jstr(data_type)));
    v.push((text("value"), value));
    v.push((text("offset"), jnum(offset)));
    v.push((text("length"), jnum(length)));
    let r = Json::Obj(v);
    assert(jv_entries(v@) =~= sfield(data_type@, vj, offset as int, length as int)->Obj_0);
    r
}

/// Adds a summary to a described field.
pub fn with_summary(field: Json, summary: String) -> (r: Json)
    ensures
        field.jv() is Obj ==> r.jv() == JsonV::Obj(field.jv()->Obj_0.push(("summary"@, JsonV::Str(summary@)))),
{
    match field {
        Json::Obj(mut v) => {
            let ghost before = v@;
            push_entry(&mut v, "summary", Json::Str(summary));
            Json::Obj(v)
        },
        other => other,
    }
}

} // verus!
