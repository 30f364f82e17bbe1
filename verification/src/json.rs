use vstd::prelude::*;
use vstd::string::StringExecFns;

verus! {

/// A JSON number: its value as an unsigned integer when it is one, and the bits of its
/// value as a 32-bit float (`f32::to_bits` of the value read as `f64`, then narrowed).
pub struct JsonNumber {
    pub as_u64: Option<u64>,
    pub f32_bits: u32,
}

/// A JSON document. Object members keep their order; their keys are distinct.
pub enum JsonValue {
    Null,
    Bool(bool),
    Number(JsonNumber),
    Str(String),
    Array(Vec<JsonValue>),
    Object(Vec<(String, JsonValue)>),
}

pub open spec fn has_key(es: Seq<(String, JsonValue)>, key: Seq<char>) -> bool {
    exists|i: int| 0 <= i < es.len() && es[i].0@ == key
}

pub open spec fn is_first_key(es: Seq<(String, JsonValue)>, key: Seq<char>, i: int) -> bool {
    &&& 0 <= i < es.len()
    &&& es[i].0@ == key
    &&& forall|j: int| 0 <= j < i ==> es[j].0@ != key
}

pub open spec fn key_pos(es: Seq<(String, JsonValue)>, key: Seq<char>) -> int {
    choose|i: int| is_first_key(es, key, i)
}

/// The member of an object with the given key; none for a missing key or a value that is
/// not an object.
pub open spec fn member(v: JsonValue, key: Seq<char>) -> Option<JsonValue> {
    match v {
        JsonValue::Object(es) => if has_key(es@, key) {
            Some(es@[key_pos(es@, key)].1)
        } else {
            None
        },
        _ => None,
    }
}

/// The text of a string value.
pub open spec fn as_text(v: Option<JsonValue>) -> Option<Seq<char>> {
    match v {
        Some(JsonValue::Str(s)) => Some(s@),
        _ => None,
    }
}

/// The value of a number that is an unsigned integer.
pub open spec fn as_unsigned(v: Option<JsonValue>) -> Option<u64> {
    match v {
        Some(JsonValue::Number(n)) => n.as_u64,
        _ => None,
    }
}

/// The text of a member, or the empty text.
pub open spec fn text_of(v: JsonValue, key: Seq<char>) -> Seq<char> {
    match as_text(member(v, key)) {
        Some(s) => s,
        None => Seq::empty(),
    }
}

/// The unsigned value of a member cut to 32 bits, or 0.
pub open spec fn u32_of(v: JsonValue, key: Seq<char>) -> u32 {
    match as_unsigned(member(v, key)) {
        Some(n) => n as u32,
        None => 0,
    }
}

/// The 32-bit float bits of a numeric member, or the bits of 0.0.
pub open spec fn f32_bits_of(v: JsonValue, key: Seq<char>) -> u32 {
    match member(v, key) {
        Some(JsonValue::Number(n)) => n.f32_bits,
        _ => 0,
    }
}

/// The member of a value that is an object.
pub fn get<'a>(v: &'a JsonValue, key: &str) -> (r: Option<&'a JsonValue>)
    ensures
        match r {
            Some(x) => member(*v, key@) == Some(*x),
            None => member(*v, key@) is None,
        },
{
    match v {
        JsonValue::Object(es) => {
            let k = String::from_str(key);
            let mut i: usize = 0;
            while i < es.len()
                invariant
                    i <= es.len(),
                    *v == JsonValue::Object(*es),
                    k@ == key@,
                    forall|j: int| 0 <= j < i ==> es@[j].0@ != key@,
                decreases es.len() - i,
            {
                if es[i].0 == k {
                    proof {
                        assert(is_first_key(es@, key@, i as int));
                        let p = key_pos(es@, key@);
                        assert(is_first_key(es@, key@, p));
                        assert(p == i);
                        assert(has_key(es@, key@));
                    }
                    let r = &es[i].1;
                    assert(*r == es@[i as int].1);
                    assert(*v == JsonValue::Object(*es));
                    assert(member(*v, key@) == Some(es@[i as int].1));
                    return Some(r);
                }
                i = i + 1;
            }
            None
        },
        _ => None,
    }
}

/// The text of a member, or the empty text.
pub fn get_str(v: &JsonValue, key: &str) -> (s: String)
    ensures
        s@ == text_of(*v, key@),
{
    match get(v, key) {
        Some(JsonValue::Str(s)) => s.clone(),
        _ => String::new(),
    }
}

/// The unsigned value of a member cut to 32 bits, or 0.
pub fn get_u32(v: &JsonValue, key: &str) -> (n: u32)
    ensures
        n == u32_of(*v, key@),
{
    match get(v, key) {
        Some(JsonValue::Number(num)) => match num.as_u64 {
            Some(x) => x as u32,
            None => 0,
        },
        _ => 0,
    }
}

/// The 32-bit float bits of a numeric member, or the bits of 0.0.
pub fn get_f32_bits(v: &JsonValue, key: &str) -> (n: u32)
    ensures
        n == f32_bits_of(*v, key@),
{
    match get(v, key) {
        Some(JsonValue::Number(num)) => num.f32_bits,
        _ => 0,
    }
}

/// The text at `key`, then `size`, of nested objects (an image URL), or the empty text.
pub fn get_img(v: &JsonValue, key: &str, size: &str) -> (s: String)
    ensures
        s@ == match member(*v, key@) {
            Some(inner) => text_of(inner, size@),
            None => Seq::<char>::empty(),
        },
{
    match get(v, key) {
        Some(inner) => get_str(inner, size),
        None => String::new(),
    }
}

} // verus!
