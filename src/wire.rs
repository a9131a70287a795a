use vstd::prelude::*;

use crate::value::{strings_view, ConversionError, MushroomValue, ValueModel, len_model};

verus! {

/// The generic, self-describing value form used on the wire (MessagePack
/// shaped). Floats are held as IEEE-754 bit patterns; an integer as any
/// value of the MessagePack integer range; maps and extension values, which
/// no telemetry value uses, as `Compound`. A binary payload is `Protobuf`
/// when it travels on a topic announced as protobuf, `Binary` otherwise.
#[derive(Debug)]
pub enum WireValue {
    Nil,
    Boolean(bool),
    Integer(i128),
    F32(u32),
    F64(u64),
    String(String),
    Binary(Vec<u8>),
    Protobuf(Vec<u8>),
    Array(Vec<WireValue>),
    Compound,
}

pub open spec fn fits_i64(n: i128) -> bool {
    i64::MIN <= n <= i64::MAX
}

/// An integer element, or zero where the element is not an `i64` integer.
pub open spec fn int_or_zero(w: WireValue) -> i64 {
    match w {
        WireValue::Integer(n) => if fits_i64(n) { n as i64 } else { 0 },
        _ => 0,
    }
}

pub open spec fn f32_or_zero(w: WireValue) -> u32 {
    match w {
        WireValue::F32(b) => b,
        _ => 0,
    }
}

pub open spec fn f64_or_zero(w: WireValue) -> u64 {
    match w {
        WireValue::F64(b) => b,
        _ => 0,
    }
}

pub open spec fn str_or_empty(w: WireValue) -> Seq<char> {
    match w {
        WireValue::String(s) => s@,
        _ => Seq::empty(),
    }
}

pub open spec fn bool_or_false(w: WireValue) -> bool {
    match w {
        WireValue::Boolean(b) => b,
        _ => false,
    }
}

/// The value that a wire value reads as. An array takes the kind of its
/// first element, and an element of another kind reads as that kind's zero.
/// An empty array carries no kind and reads as an empty `FloatArray`.
pub open spec fn value_of_wire(w: WireValue) -> Option<ValueModel> {
    match w {
        WireValue::F32(b) => Some(ValueModel::Float(b)),
        WireValue::F64(b) => Some(ValueModel::Double(b)),
        WireValue::Integer(n) => Some(ValueModel::Int(if fits_i64(n) { n as i64 } else { 0 })),
        WireValue::String(s) => Some(ValueModel::String(s@)),
        WireValue::Boolean(b) => Some(ValueModel::Boolean(b)),
        WireValue::Binary(v) => Some(ValueModel::ByteArray(v@)),
        WireValue::Protobuf(v) => Some(ValueModel::Protobuf(v@)),
        WireValue::Array(items) => if items@.len() == 0 {
            Some(ValueModel::FloatArray(Seq::empty()))
        } else {
            match items@[0] {
                WireValue::F32(_) => Some(ValueModel::FloatArray(items@.map_values(|x: WireValue| f32_or_zero(x)))),
                WireValue::F64(_) => Some(ValueModel::DoubleArray(items@.map_values(|x: WireValue| f64_or_zero(x)))),
                WireValue::Integer(_) => Some(ValueModel::IntArray(items@.map_values(|x: WireValue| int_or_zero(x)))),
                WireValue::String(_) => Some(ValueModel::StringArray(items@.map_values(|x: WireValue| str_or_empty(x)))),
                WireValue::Boolean(_) => Some(ValueModel::BooleanArray(items@.map_values(|x: WireValue| bool_or_false(x)))),
                _ => None,
            }
        },
        _ => None,
    }
}

/// `w` is the wire form of `m`: scalars map to the matching wire scalar,
/// raw bytes to `Binary`, protobuf payloads to `Protobuf`, arrays element by
/// element to `Array`.
pub open spec fn encodes(w: WireValue, m: ValueModel) -> bool {
    match m {
        ValueModel::Float(b) => w == WireValue::F32(b),
        ValueModel::Double(b) => w == WireValue::F64(b),
        ValueModel::Int(v) => w == WireValue::Integer(v as i128),
        ValueModel::String(s) => w is String && w->String_0@ == s,
        ValueModel::Boolean(b) => w == WireValue::Boolean(b),
        ValueModel::ByteArray(v) => w is Binary && w->Binary_0@ == v,
        ValueModel::Protobuf(v) => w is Protobuf && w->Protobuf_0@ == v,
        ValueModel::FloatArray(v) => w is Array && w->Array_0@.len() == v.len()
            && forall|i: int| 0 <= i < v.len() ==> w->Array_0@[i] == WireValue::F32(#[trigger] v[i]),
        ValueModel::DoubleArray(v) => w is Array && w->Array_0@.len() == v.len()
            && forall|i: int| 0 <= i < v.len() ==> w->Array_0@[i] == WireValue::F64(#[trigger] v[i]),
        ValueModel::IntArray(v) => w is Array && w->Array_0@.len() == v.len()
            && forall|i: int| 0 <= i < v.len() ==> w->Array_0@[i] == WireValue::Integer(#[trigger] v[i] as i128),
        ValueModel::BooleanArray(v) => w is Array && w->Array_0@.len() == v.len()
            && forall|i: int| 0 <= i < v.len() ==> w->Array_0@[i] == WireValue::Boolean(#[trigger] v[i]),
        ValueModel::StringArray(v) => w is Array && w->Array_0@.len() == v.len()
            && forall|i: int| 0 <= i < v.len() ==> (#[trigger] w->Array_0@[i] is String
                && w->Array_0@[i]->String_0@ == v[i]),
    }
}

fn wire_f32s(v: &Vec<u32>) -> (r: Vec<WireValue>)
    ensures
        r@.len() == v@.len(),
        forall|i: int| 0 <= i < v@.len() ==> r@[i] == WireValue::F32(#[trigger] v@[i]),
{
    let mut r: Vec<WireValue> = Vec::new();
    let mut i: usize = 0;
    while i < v.len()
        invariant
            i <= v@.len(),
            r@.len() == i,
            forall|j: int| 0 <= j < i ==> r@[j] == WireValue::F32(#[trigger] v@[j]),
        decreases v@.len() - i,
    {
        r.push(WireValue::F32(v[i]));
        i += 1;
    }
    r
}

fn wire_f64s(v: &Vec<u64>) -> (r: Vec<WireValue>)
    ensures
        r@.len() == v@.len(),
        forall|i: int| 0 <= i < v@.len() ==> r@[i] == WireValue::F64(#[trigger] v@[i]),
{
    let mut r: Vec<WireValue> = Vec::new();
    let mut i: usize = 0;
    while i < v.len()
        invariant
            i <= v@.len(),
            r@.len() == i,
            forall|j: int| 0 <= j < i ==> r@[j] == WireValue::F64(#[trigger] v@[j]),
        decreases v@.len() - i,
    {
        r.push(WireValue::F64(v[i]));
        i += 1;
    }
    r
}

fn wire_ints(v: &Vec<i64>) -> (r: Vec<WireValue>)
    ensures
        r@.len() == v@.len(),
        forall|i: int| 0 <= i < v@.len() ==> r@[i] == WireValue::Integer(#[trigger] v@[i] as i128),
{
    let mut r: Vec<WireValue> = Vec::new();
    let mut i: usize = 0;
    while i < v.len()
        invariant
            i <= v@.len(),
            r@.len() == i,
            forall|j: int| 0 <= j < i ==> r@[j] == WireValue::Integer(#[trigger] v@[j] as i128),
        decreases v@.len() - i,
    {
        r.push(WireValue::Integer(v[i] as i128));
        i += 1;
    }
    r
}

fn wire_bools(v: &Vec<bool>) -> (r: Vec<WireValue>)
    ensures
        r@.len() == v@.len(),
        forall|i: int| 0 <= i < v@.len() ==> r@[i] == WireValue::Boolean(#[trigger] v@[i]),
{
    let mut r: Vec<WireValue> = Vec::new();
    let mut i: usize = 0;
    while i < v.len()
        invariant
            i <= v@.len(),
            r@.len() == i,
            forall|j: int| 0 <= j < i ==> r@[j] == WireValue::Boolean(#[trigger] v@[j]),
        decreases v@.len() - i,
    {
        r.push(WireValue::Boolean(v[i]));
        i += 1;
    }
    r
}

fn wire_strings(v: &Vec<String>) -> (r: Vec<WireValue>)
    ensures
        r@.len() == v@.len(),
        forall|i: int| 0 <= i < v@.len() ==> (#[trigger] r@[i] is String && r@[i]->String_0@ == v@[i]@),
{
    let mut r: Vec<WireValue> = Vec::new();
    let mut i: usize = 0;
    while i < v.len()
        invariant
            i <= v@.len(),
            r@.len() == i,
            forall|j: int| 0 <= j < i ==> (#[trigger] r@[j] is String && r@[j]->String_0@ == v@[j]@),
        decreases v@.len() - i,
    {
        r.push(WireValue::String(v[i].clone()));
        i += 1;
    }
    r
}

fn read_f32s(items: &Vec<WireValue>) -> (r: Vec<u32>)
    ensures
        r@ == items@.map_values(|x: WireValue| f32_or_zero(x)),
{
    let mut r: Vec<u32> = Vec::new();
    let mut i: usize = 0;
    while i < items.len()
        invariant
            i <= items@.len(),
            r@ == items@.take(i as int).map_values(|x: WireValue| f32_or_zero(x)),
        decreases items@.len() - i,
    {
        let b: u32 = match &items[i] {
            WireValue::F32(b) => *b,
            _ => 0,
        };
        r.push(b);
        assert(items@.take(i + 1) == items@.take(i as int).push(items@[i as int]));
        i += 1;
    }
    assert(items@.take(i as int) == items@);
    r
}

fn read_f64s(items: &Vec<WireValue>) -> (r: Vec<u64>)
    ensures
        r@ == items@.map_values(|x: WireValue| f64_or_zero(x)),
{
    let mut r: Vec<u64> = Vec::new();
    let mut i: usize = 0;
    while i < items.len()
        invariant
            i <= items@.len(),
            r@ == items@.take(i as int).map_values(|x: WireValue| f64_or_zero(x)),
        decreases items@.len() - i,
    {
        let b: u64 = match &items[i] {
            WireValue::F64(b) => *b,
            _ => 0,
        };
        r.push(b);
        assert(items@.take(i + 1) == items@.take(i as int).push(items@[i as int]));
        i += 1;
    }
    assert(items@.take(i as int) == items@);
    r
}

fn read_int(w: &WireValue) -> (r: i64)
    ensures
        r == int_or_zero(*w),
{
    match w {
        WireValue::Integer(n) => if i64::MIN as i128 <= *n && *n <= i64::MAX as i128 {
            *n as i64
        } else {
            0
        },
        _ => 0,
    }
}

fn read_ints(items: &Vec<WireValue>) -> (r: Vec<i64>)
    ensures
        r@ == items@.map_values(|x: WireValue| int_or_zero(x)),
{
    let mut r: Vec<i64> = Vec::new();
    let mut i: usize = 0;
    while i < items.len()
        invariant
            i <= items@.len(),
            r@ == items@.take(i as int).map_values(|x: WireValue| int_or_zero(x)),
        decreases items@.len() - i,
    {
        let n = read_int(&items[i]);
        r.push(n);
        assert(items@.take(i + 1) == items@.take(i as int).push(items@[i as int]));
        i += 1;
    }
    assert(items@.take(i as int) == items@);
    r
}

fn read_bools(items: &Vec<WireValue>) -> (r: Vec<bool>)
    ensures
        r@ == items@.map_values(|x: WireValue| bool_or_false(x)),
{
    let mut r: Vec<bool> = Vec::new();
    let mut i: usize = 0;
    while i < items.len()
        invariant
            i <= items@.len(),
            r@ == items@.take(i as int).map_values(|x: WireValue| bool_or_false(x)),
        decreases items@.len() - i,
    {
        let b: bool = match &items[i] {
            WireValue::Boolean(b) => *b,
            _ => false,
        };
        r.push(b);
        assert(items@.take(i + 1) == items@.take(i as int).push(items@[i as int]));
        i += 1;
    }
    assert(items@.take(i as int) == items@);
    r
}

fn read_strings(items: &Vec<WireValue>) -> (r: Vec<String>)
    ensures
        strings_view(r@) == items@.map_values(|x: WireValue| str_or_empty(x)),
{
    let mut r: Vec<String> = Vec::new();
    let mut i: usize = 0;
    while i < items.len()
        invariant
            i <= items@.len(),
            strings_view(r@) == items@.take(i as int).map_values(|x: WireValue| str_or_empty(x)),
        decreases items@.len() - i,
    {
        let s: String = match &items[i] {
            WireValue::String(s) => s.clone(),
            _ => String::new(),
        };
        let ghost before = r@;
        r.push(s);
        assert(strings_view(r@) == strings_view(before).push(s@));
        assert(items@.take(i + 1) == items@.take(i as int).push(items@[i as int]));
        i += 1;
    }
    assert(items@.take(i as int) == items@);
    r
}

impl MushroomValue {
    /// The wire form of this value.
    pub fn to_wire(&self) -> (r: WireValue)
        ensures
            encodes(r, self@),
    {
        match self {
            MushroomValue::Float(v) => WireValue::F32(*v),
            MushroomValue::Double(v) => WireValue::F64(*v),
            MushroomValue::Int(v) => WireValue::Integer(*v as i128),
            MushroomValue::String(v) => WireValue::String(v.clone()),
            MushroomValue::Boolean(v) => WireValue::Boolean(*v),
            MushroomValue::ByteArray(v) => WireValue::Binary(v.clone()),
            MushroomValue::Protobuf(v) => WireValue::Protobuf(v.clone()),
            MushroomValue::FloatArray(v) => WireValue::Array(wire_f32s(v)),
            MushroomValue::DoubleArray(v) => WireValue::Array(wire_f64s(v)),
            MushroomValue::IntArray(v) => WireValue::Array(wire_ints(v)),
            MushroomValue::StringArray(v) => WireValue::Array(wire_strings(v)),
            MushroomValue::BooleanArray(v) => WireValue::Array(wire_bools(v)),
        }
    }

    /// Reads a wire value; fails on nil, on maps and extension values, and on
    /// an array whose first element is none of the scalar kinds.
    pub fn from_wire(w: &WireValue) -> (r: Result<MushroomValue, ConversionError>)
        ensures
            value_of_wire(*w) is Some <==> r is Ok,
            r is Ok ==> r->Ok_0@ == value_of_wire(*w)->Some_0,
            r is Err ==> r->Err_0 == ConversionError::UnsupportedConversion,
    {
        match w {
            WireValue::F32(b) => Ok(MushroomValue::Float(*b)),
            WireValue::F64(b) => Ok(MushroomValue::Double(*b)),
            WireValue::Integer(_) => Ok(MushroomValue::Int(read_int(w))),
            WireValue::String(s) => Ok(MushroomValue::String(s.clone())),
            WireValue::Boolean(b) => Ok(MushroomValue::Boolean(*b)),
            WireValue::Binary(v) => Ok(MushroomValue::ByteArray(v.clone())),
            WireValue::Protobuf(v) => Ok(MushroomValue::Protobuf(v.clone())),
            WireValue::Array(items) => {
                if items.len() == 0 {
                    let empty: Vec<u32> = Vec::new();
                    assert(empty@ =~= Seq::<u32>::empty());
                    return Ok(MushroomValue::FloatArray(empty));
                }
                match &items[0] {
                    WireValue::F32(_) => Ok(MushroomValue::FloatArray(read_f32s(items))),
                    WireValue::F64(_) => Ok(MushroomValue::DoubleArray(read_f64s(items))),
                    WireValue::Integer(_) => Ok(MushroomValue::IntArray(read_ints(items))),
                    WireValue::String(_) => Ok(MushroomValue::StringArray(read_strings(items))),
                    WireValue::Boolean(_) => Ok(MushroomValue::BooleanArray(read_bools(items))),
                    _ => Err(ConversionError::UnsupportedConversion),
                }
            },
            _ => Err(ConversionError::UnsupportedConversion),
        }
    }
}

/// Every value but an empty array that is not a `FloatArray` reads back from
/// its wire form as itself. (An empty array reads back as an empty
/// `FloatArray`, its element kind being lost.) In particular every single
/// value does.
pub proof fn lemma_wire_round_trip(m: ValueModel, w: WireValue)
    requires
        encodes(w, m),
        len_model(m) == Some(0nat) ==> m is FloatArray,
    ensures
        value_of_wire(w) == Some(m),
{
    match m {
        ValueModel::FloatArray(v) => {
            let items = w->Array_0@;
            if v.len() > 0 {
                assert(items[0] == WireValue::F32(v[0]));
                assert(items.map_values(|x: WireValue| f32_or_zero(x)) =~= v);
            } else {
                assert(v =~= Seq::<u32>::empty());
            }
        },
        ValueModel::DoubleArray(v) => {
            let items = w->Array_0@;
            assert(items[0] == WireValue::F64(v[0]));
            assert(items.map_values(|x: WireValue| f64_or_zero(x)) =~= v);
        },
        ValueModel::IntArray(v) => {
            let items = w->Array_0@;
            assert(items[0] == WireValue::Integer(v[0] as i128));
            assert(items.map_values(|x: WireValue| int_or_zero(x)) =~= v);
        },
        ValueModel::BooleanArray(v) => {
            let items = w->Array_0@;
            assert(items[0] == WireValue::Boolean(v[0]));
            assert(items.map_values(|x: WireValue| bool_or_false(x)) =~= v);
        },
        ValueModel::StringArray(v) => {
            let items = w->Array_0@;
            assert(items[0] is String);
            assert(items.map_values(|x: WireValue| str_or_empty(x)) =~= v);
        },
        _ => {},
    }
}

} // verus!
