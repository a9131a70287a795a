use vstd::prelude::*;

use crate::text::{int_text, push_int};

verus! {

/// A telemetry value. Floating-point payloads are held as their IEEE-754
/// bit patterns: `Float` as binary32, `Double` as binary64.
#[derive(Debug, Clone, PartialEq)]
pub enum MushroomValue {
    ByteArray(Vec<u8>),
    Protobuf(Vec<u8>),
    Float(u32),
    FloatArray(Vec<u32>),
    Double(u64),
    DoubleArray(Vec<u64>),
    Int(i64),
    IntArray(Vec<i64>),
    String(String),
    StringArray(Vec<String>),
    Boolean(bool),
    BooleanArray(Vec<bool>),
}

/// The mathematical content of a `MushroomValue`.
pub enum ValueModel {
    ByteArray(Seq<u8>),
    Protobuf(Seq<u8>),
    Float(u32),
    FloatArray(Seq<u32>),
    Double(u64),
    DoubleArray(Seq<u64>),
    Int(i64),
    IntArray(Seq<i64>),
    String(Seq<char>),
    StringArray(Seq<Seq<char>>),
    Boolean(bool),
    BooleanArray(Seq<bool>),
}

pub open spec fn strings_view(v: Seq<String>) -> Seq<Seq<char>> {
    v.map_values(|s: String| s@)
}

impl View for MushroomValue {
    type V = ValueModel;

    open spec fn view(&self) -> ValueModel {
        match self {
            MushroomValue::ByteArray(v) => ValueModel::ByteArray(v@),
            MushroomValue::Protobuf(v) => ValueModel::Protobuf(v@),
            MushroomValue::Float(v) => ValueModel::Float(*v),
            MushroomValue::FloatArray(v) => ValueModel::FloatArray(v@),
            MushroomValue::Double(v) => ValueModel::Double(*v),
            MushroomValue::DoubleArray(v) => ValueModel::DoubleArray(v@),
            MushroomValue::Int(v) => ValueModel::Int(*v),
            MushroomValue::IntArray(v) => ValueModel::IntArray(v@),
            MushroomValue::String(v) => ValueModel::String(v@),
            MushroomValue::StringArray(v) => ValueModel::StringArray(strings_view(v@)),
            MushroomValue::Boolean(v) => ValueModel::Boolean(*v),
            MushroomValue::BooleanArray(v) => ValueModel::BooleanArray(v@),
        }
    }
}

/// The kinds of value that a topic can be announced with.
#[derive(Debug, Clone, Copy, PartialEq, Eq, Structural)]
pub enum ValueKind {
    Boolean,
    Double,
    Float,
    Int,
    String,
    BooleanArray,
    DoubleArray,
    FloatArray,
    IntArray,
    StringArray,
    ProtoBuf,
    Raw,
}

#[derive(Debug, Clone, Copy, PartialEq, Eq, Structural)]
pub enum ConversionError {
    UnsupportedConversion,
}

pub open spec fn kind_of(m: ValueModel) -> ValueKind {
    match m {
        ValueModel::Boolean(_) => ValueKind::Boolean,
        ValueModel::Double(_) => ValueKind::Double,
        ValueModel::Float(_) => ValueKind::Float,
        ValueModel::Int(_) => ValueKind::Int,
        ValueModel::String(_) => ValueKind::String,
        ValueModel::BooleanArray(_) => ValueKind::BooleanArray,
        ValueModel::DoubleArray(_) => ValueKind::DoubleArray,
        ValueModel::FloatArray(_) => ValueKind::FloatArray,
        ValueModel::IntArray(_) => ValueKind::IntArray,
        ValueModel::StringArray(_) => ValueKind::StringArray,
        ValueModel::Protobuf(_) => ValueKind::ProtoBuf,
        ValueModel::ByteArray(_) => ValueKind::Raw,
    }
}

pub open spec fn is_binary_model(m: ValueModel) -> bool {
    m is ByteArray || m is Protobuf
}

pub open spec fn is_numeric_model(m: ValueModel) -> bool {
    m is Float || m is FloatArray || m is Double || m is DoubleArray || m is Int || m is IntArray
}

pub open spec fn is_string_model(m: ValueModel) -> bool {
    m is String || m is StringArray
}

pub open spec fn is_boolean_model(m: ValueModel) -> bool {
    m is Boolean || m is BooleanArray
}

/// Arrays are the binary payloads and the homogeneous arrays.
pub open spec fn is_array_model(m: ValueModel) -> bool {
    is_binary_model(m) || m is FloatArray || m is DoubleArray || m is IntArray
        || m is StringArray || m is BooleanArray
}

pub open spec fn is_single_model(m: ValueModel) -> bool {
    m is Float || m is Double || m is Int || m is String || m is Boolean
}

/// Number of elements of an array value; `None` for a single value.
pub open spec fn len_model(m: ValueModel) -> Option<nat> {
    match m {
        ValueModel::ByteArray(v) => Some(v.len()),
        ValueModel::Protobuf(v) => Some(v.len()),
        ValueModel::FloatArray(v) => Some(v.len()),
        ValueModel::DoubleArray(v) => Some(v.len()),
        ValueModel::IntArray(v) => Some(v.len()),
        ValueModel::StringArray(v) => Some(v.len()),
        ValueModel::BooleanArray(v) => Some(v.len()),
        _ => None,
    }
}

/// Element `i` of an array value, as a single value; bytes read as integers.
pub open spec fn index_model(m: ValueModel, i: int) -> Option<ValueModel> {
    match m {
        ValueModel::ByteArray(v) => if 0 <= i < v.len() { Some(ValueModel::Int(v[i] as i64)) } else { None },
        ValueModel::Protobuf(v) => if 0 <= i < v.len() { Some(ValueModel::Int(v[i] as i64)) } else { None },
        ValueModel::FloatArray(v) => if 0 <= i < v.len() { Some(ValueModel::Float(v[i])) } else { None },
        ValueModel::DoubleArray(v) => if 0 <= i < v.len() { Some(ValueModel::Double(v[i])) } else { None },
        ValueModel::IntArray(v) => if 0 <= i < v.len() { Some(ValueModel::Int(v[i])) } else { None },
        ValueModel::StringArray(v) => if 0 <= i < v.len() { Some(ValueModel::String(v[i])) } else { None },
        ValueModel::BooleanArray(v) => if 0 <= i < v.len() { Some(ValueModel::Boolean(v[i])) } else { None },
        _ => None,
    }
}

/// The text of a string, boolean or integer value; other kinds have none
/// here (the text of a float is its shortest decimal form).
pub open spec fn text_model(m: ValueModel) -> Option<Seq<char>> {
    match m {
        ValueModel::String(s) => Some(s),
        ValueModel::Boolean(b) => Some(if b { seq!['t', 'r', 'u', 'e'] } else { seq!['f', 'a', 'l', 's', 'e'] }),
        ValueModel::Int(v) => Some(int_text(v)),
        _ => None,
    }
}

pub fn clone_strings(v: &Vec<String>) -> (r: Vec<String>)
    ensures
        strings_view(r@) == strings_view(v@),
{
    let r = v.clone();
    assert(strings_view(r@) =~= strings_view(v@));
    r
}

impl MushroomValue {
    /// A copy with the same content.
    pub fn duplicate(&self) -> (r: MushroomValue)
        ensures
            r@ == self@,
    {
        match self {
            MushroomValue::ByteArray(v) => MushroomValue::ByteArray(v.clone()),
            MushroomValue::Protobuf(v) => MushroomValue::Protobuf(v.clone()),
            MushroomValue::Float(v) => MushroomValue::Float(*v),
            MushroomValue::FloatArray(v) => MushroomValue::FloatArray(v.clone()),
            MushroomValue::Double(v) => MushroomValue::Double(*v),
            MushroomValue::DoubleArray(v) => MushroomValue::DoubleArray(v.clone()),
            MushroomValue::Int(v) => MushroomValue::Int(*v),
            MushroomValue::IntArray(v) => MushroomValue::IntArray(v.clone()),
            MushroomValue::String(v) => MushroomValue::String(v.clone()),
            MushroomValue::StringArray(v) => MushroomValue::StringArray(clone_strings(v)),
            MushroomValue::Boolean(v) => MushroomValue::Boolean(*v),
            MushroomValue::BooleanArray(v) => MushroomValue::BooleanArray(v.clone()),
        }
    }

    /// The kind that a topic carrying this value is announced with.
    pub fn kind(&self) -> (r: ValueKind)
        ensures
            r == kind_of(self@),
    {
        match self {
            MushroomValue::Boolean(_) => ValueKind::Boolean,
            MushroomValue::Double(_) => ValueKind::Double,
            MushroomValue::Float(_) => ValueKind::Float,
            MushroomValue::Int(_) => ValueKind::Int,
            MushroomValue::String(_) => ValueKind::String,
            MushroomValue::BooleanArray(_) => ValueKind::BooleanArray,
            MushroomValue::DoubleArray(_) => ValueKind::DoubleArray,
            MushroomValue::FloatArray(_) => ValueKind::FloatArray,
            MushroomValue::IntArray(_) => ValueKind::IntArray,
            MushroomValue::StringArray(_) => ValueKind::StringArray,
            MushroomValue::Protobuf(_) => ValueKind::ProtoBuf,
            MushroomValue::ByteArray(_) => ValueKind::Raw,
        }
    }

    pub fn is_binary(&self) -> (r: bool)
        ensures
            r == is_binary_model(self@),
    {
        match self {
            MushroomValue::ByteArray(_) => true,
            MushroomValue::Protobuf(_) => true,
            _ => false,
        }
    }

    pub fn is_numeric(&self) -> (r: bool)
        ensures
            r == is_numeric_model(self@),
    {
        match self {
            MushroomValue::Float(_) => true,
            MushroomValue::FloatArray(_) => true,
            MushroomValue::Double(_) => true,
            MushroomValue::DoubleArray(_) => true,
            MushroomValue::Int(_) => true,
            MushroomValue::IntArray(_) => true,
            _ => false,
        }
    }

    pub fn is_string(&self) -> (r: bool)
        ensures
            r == is_string_model(self@),
    {
        match self {
            MushroomValue::String(_) => true,
            MushroomValue::StringArray(_) => true,
            _ => false,
        }
    }

    pub fn is_boolean(&self) -> (r: bool)
        ensures
            r == is_boolean_model(self@),
    {
        match self {
            MushroomValue::Boolean(_) => true,
            MushroomValue::BooleanArray(_) => true,
            _ => false,
        }
    }

    pub fn is_array(&self) -> (r: bool)
        ensures
            r == is_array_model(self@),
    {
        match self {
            MushroomValue::ByteArray(_) => true,
            MushroomValue::Protobuf(_) => true,
            MushroomValue::FloatArray(_) => true,
            MushroomValue::DoubleArray(_) => true,
            MushroomValue::IntArray(_) => true,
            MushroomValue::StringArray(_) => true,
            MushroomValue::BooleanArray(_) => true,
            _ => false,
        }
    }

    pub fn is_single(&self) -> (r: bool)
        ensures
            r == is_single_model(self@),
    {
        match self {
            MushroomValue::Float(_) => true,
            MushroomValue::Double(_) => true,
            MushroomValue::Int(_) => true,
            MushroomValue::String(_) => true,
            MushroomValue::Boolean(_) => true,
            _ => false,
        }
    }

    pub fn get_index(&self, index: usize) -> (r: Option<MushroomValue>)
        ensures
            r is Some <==> index_model(self@, index as int) is Some,
            r is Some ==> r->Some_0@ == index_model(self@, index as int)->Some_0,
    {
        match self {
            MushroomValue::ByteArray(v) => if index < v.len() {
                Some(MushroomValue::Int(v[index] as i64))
            } else {
                None
            },
            MushroomValue::Protobuf(v) => if index < v.len() {
                Some(MushroomValue::Int(v[index] as i64))
            } else {
                None
            },
            MushroomValue::FloatArray(v) => if index < v.len() {
                Some(MushroomValue::Float(v[index]))
            } else {
                None
            },
            MushroomValue::DoubleArray(v) => if index < v.len() {
                Some(MushroomValue::Double(v[index]))
            } else {
                None
            },
            MushroomValue::IntArray(v) => if index < v.len() {
                Some(MushroomValue::Int(v[index]))
            } else {
                None
            },
            MushroomValue::StringArray(v) => if index < v.len() {
                Some(MushroomValue::String(v[index].clone()))
            } else {
                None
            },
            MushroomValue::BooleanArray(v) => if index < v.len() {
                Some(MushroomValue::Boolean(v[index]))
            } else {
                None
            },
            _ => None,
        }
    }

    pub fn get_len(&self) -> (r: Option<usize>)
        ensures
            r is Some <==> len_model(self@) is Some,
            r is Some ==> r->Some_0 as nat == len_model(self@)->Some_0,
    {
        match self {
            MushroomValue::ByteArray(v) => Some(v.len()),
            MushroomValue::Protobuf(v) => Some(v.len()),
            MushroomValue::FloatArray(v) => Some(v.len()),
            MushroomValue::DoubleArray(v) => Some(v.len()),
            MushroomValue::IntArray(v) => Some(v.len()),
            MushroomValue::StringArray(v) => Some(v.len()),
            MushroomValue::BooleanArray(v) => Some(v.len()),
            _ => None,
        }
    }

    /// Reads a boolean; only a `Boolean` converts.
    pub fn to_bool(&self) -> (r: Result<bool, ConversionError>)
        ensures
            self@ is Boolean ==> r == Ok::<bool, ConversionError>(self@->Boolean_0),
            !(self@ is Boolean) ==> r == Err::<bool, ConversionError>(ConversionError::UnsupportedConversion),
    {
        match self {
            MushroomValue::Boolean(v) => Ok(*v),
            _ => Err(ConversionError::UnsupportedConversion),
        }
    }

    /// The text of a string, boolean or integer value; `None` for the others.
    pub fn to_text(&self) -> (r: Option<String>)
        ensures
            r is Some <==> text_model(self@) is Some,
            r is Some ==> r->Some_0@ == text_model(self@)->Some_0,
    {
        proof {
            reveal_strlit("true");
            reveal_strlit("false");
        }
        match self {
            MushroomValue::String(v) => Some(v.clone()),
            MushroomValue::Boolean(true) => Some(String::from_str("true")),
            MushroomValue::Boolean(false) => Some(String::from_str("false")),
            MushroomValue::Int(v) => {
                let mut s = String::new();
                push_int(&mut s, *v);
                Some(s)
            },
            _ => None,
        }
    }

    /// Reads a byte array; only a `ByteArray` converts.
    pub fn to_bytes(&self) -> (r: Result<Vec<u8>, ConversionError>)
        ensures
            self@ is ByteArray <==> r is Ok,
            r is Ok ==> r->Ok_0@ == self@->ByteArray_0,
            r is Err ==> r->Err_0 == ConversionError::UnsupportedConversion,
    {
        match self {
            MushroomValue::ByteArray(v) => Ok(v.clone()),
            _ => Err(ConversionError::UnsupportedConversion),
        }
    }

    /// Reads an array of strings; only a `StringArray` converts.
    pub fn to_string_array(&self) -> (r: Result<Vec<String>, ConversionError>)
        ensures
            self@ is StringArray <==> r is Ok,
            r is Ok ==> strings_view(r->Ok_0@) == self@->StringArray_0,
            r is Err ==> r->Err_0 == ConversionError::UnsupportedConversion,
    {
        match self {
            MushroomValue::StringArray(v) => Ok(clone_strings(v)),
            _ => Err(ConversionError::UnsupportedConversion),
        }
    }

    /// Reads an array of booleans; only a `BooleanArray` converts.
    pub fn to_bool_array(&self) -> (r: Result<Vec<bool>, ConversionError>)
        ensures
            self@ is BooleanArray <==> r is Ok,
            r is Ok ==> r->Ok_0@ == self@->BooleanArray_0,
            r is Err ==> r->Err_0 == ConversionError::UnsupportedConversion,
    {
        match self {
            MushroomValue::BooleanArray(v) => Ok(v.clone()),
            _ => Err(ConversionError::UnsupportedConversion),
        }
    }
}

} // verus!
