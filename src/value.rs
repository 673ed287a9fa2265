//! Protocol values as the decoder reads them.
use vstd::prelude::*;

verus! {

/// A value of the editor's RPC stream. Values the decoder never reads as
/// such (floats, binary data, extension types, integers beyond `i64`,
/// strings that are not UTF-8) are all `Other`.
#[derive(Debug)]
pub enum RpcValue {
    Nil,
    Boolean(bool),
    Integer(i64),
    String(String),
    Array(Vec<RpcValue>),
    Dict(Vec<(RpcValue, RpcValue)>),
    Other,
}

/// The integer held by `v` (0 when it holds none).
pub open spec fn int_val(v: RpcValue) -> i64 {
    match v {
        RpcValue::Integer(i) => i,
        _ => 0,
    }
}

/// The text held by `v` (empty when it holds none).
pub open spec fn str_val(v: RpcValue) -> Seq<char> {
    match v {
        RpcValue::String(s) => s@,
        _ => Seq::empty(),
    }
}

/// The items of the array `v` (none when it is no array).
pub open spec fn arr_val(v: RpcValue) -> Seq<RpcValue> {
    match v {
        RpcValue::Array(a) => a@,
        _ => Seq::empty(),
    }
}

/// The entries of the map `v` (none when it is no map).
pub open spec fn map_val(v: RpcValue) -> Seq<(RpcValue, RpcValue)> {
    match v {
        RpcValue::Dict(m) => m@,
        _ => Seq::empty(),
    }
}

/// The flag held by `v` (false when it holds none).
pub open spec fn bool_val(v: RpcValue) -> bool {
    match v {
        RpcValue::Boolean(b) => b,
        _ => false,
    }
}

impl RpcValue {
    /// The integer, if this is one.
    pub fn as_i64(&self) -> (r: Option<i64>)
        ensures
            r is Some <==> *self is Integer,
            r is Some ==> r == Some(int_val(*self)),
    {
        match self {
            RpcValue::Integer(i) => Some(*i),
            _ => None,
        }
    }

    /// The text, if this is a string.
    pub fn as_str(&self) -> (r: Option<&String>)
        ensures
            r is Some <==> *self is String,
            r matches Some(s) ==> s@ == str_val(*self),
    {
        match self {
            RpcValue::String(s) => Some(s),
            _ => None,
        }
    }

    /// The items, if this is an array.
    pub fn as_array(&self) -> (r: Option<&Vec<RpcValue>>)
        ensures
            r is Some <==> *self is Array,
            r matches Some(a) ==> a@ == arr_val(*self),
    {
        match self {
            RpcValue::Array(a) => Some(a),
            _ => None,
        }
    }

    /// The entries, if this is a map.
    pub fn as_map(&self) -> (r: Option<&Vec<(RpcValue, RpcValue)>>)
        ensures
            r is Some <==> *self is Dict,
            r matches Some(m) ==> m@ == map_val(*self),
    {
        match self {
            RpcValue::Dict(m) => Some(m),
            _ => None,
        }
    }

    /// The flag, if this is a boolean.
    pub fn as_bool(&self) -> (r: Option<bool>)
        ensures
            r is Some <==> *self is Boolean,
            r is Some ==> r == Some(bool_val(*self)),
    {
        match self {
            RpcValue::Boolean(b) => Some(*b),
            _ => None,
        }
    }
}

/// Whether `a` and `b` hold the same characters.
pub fn same_text(a: &str, b: &str) -> (r: bool)
    ensures
        r == (a@ == b@),
{
    let n = a.unicode_len();
    if n != b.unicode_len() {
        return false;
    }
    let mut i: usize = 0;
    while i < n
        invariant
            n == a@.len(),
            n == b@.len(),
            i <= n,
            forall|k: int| 0 <= k < i ==> a@[k] == b@[k],
        decreases n - i,
    {
        if a.get_char(i) != b.get_char(i) {
            return false;
        }
        i = i + 1;
    }
    assert(a@ =~= b@);
    true
}

/// Whether `a` begins with the characters of `prefix`.
pub fn starts_with_text(a: &str, prefix: &str) -> (r: bool)
    ensures
        r == (a@.len() >= prefix@.len() && a@.take(prefix@.len() as int) == prefix@),
{
    let n = prefix.unicode_len();
    if a.unicode_len() < n {
        return false;
    }
    let mut i: usize = 0;
    while i < n
        invariant
            n == prefix@.len(),
            n <= a@.len(),
            i <= n,
            forall|k: int| 0 <= k < i ==> a@[k] == prefix@[k],
        decreases n - i,
    {
        if a.get_char(i) != prefix.get_char(i) {
            assert(a@.take(n as int)[i as int] != prefix@[i as int]);
            return false;
        }
        i = i + 1;
    }
    assert(a@.take(n as int) =~= prefix@);
    true
}

} // verus!
