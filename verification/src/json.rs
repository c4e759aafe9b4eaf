//! A generic structured value: the JSON-like representation that records are
//! validated out of and serialized back into.
//!
//! The value is a tagged union with explicit variants for each shape, so that
//! every projection a consumer makes is a checked one. A floating-point
//! number is carried as its IEEE 754 bit pattern in `Float`; nothing in the
//! library does arithmetic on it, it is only carried through and, on the
//! serialization path, truncated to an integer by bit manipulation.

use vstd::prelude::*;

verus! {

/// A JSON-like structured value.
///
/// An object is a sequence of key/value pairs; a lookup takes the first pair
/// with the wanted key, so a well-formed object (distinct keys) behaves as a
/// mapping.
#[derive(PartialEq, Eq, Debug)]
pub enum JsonValue {
    /// An object: named fields, in order.
    Object(Vec<(String, JsonValue)>),
    /// An array of values, in order.
    Array(Vec<JsonValue>),
    /// A text value.
    Str(String),
    /// A signed integer.
    Int(i64),
    /// An unsigned integer.
    UInt(u64),
    /// A floating-point number, carried as its IEEE 754 binary64 bit
    /// pattern.
    Float(u64),
    /// A boolean.
    Bool(bool),
    /// The null value.
    Null,
}

/// The value under `key` in an object's pair sequence: the first pair whose
/// key reads as `key`, if any.
pub open spec fn spec_get(pairs: Seq<(String, JsonValue)>, key: Seq<char>) -> Option<JsonValue>
    decreases pairs.len(),
{
    if pairs.len() == 0 {
        None
    } else if pairs[0].0@ == key {
        Some(pairs[0].1)
    } else {
        spec_get(pairs.drop_first(), key)
    }
}

/// Looks `key` up among an object's pairs: the first pair with that key wins.
pub fn get_field<'a>(pairs: &'a Vec<(String, JsonValue)>, key: &String) -> (r: Option<
    &'a JsonValue,
>)
    ensures
        match r {
            Some(v) => spec_get(pairs@, key@) == Some(*v),
            None => spec_get(pairs@, key@) is None,
        },
{
    proof {
        assert(pairs@.skip(0) =~= pairs@);
    }
    let mut i: usize = 0;
    while i < pairs.len()
        invariant
            i <= pairs.len(),
            spec_get(pairs@, key@) == spec_get(pairs@.skip(i as int), key@),
        decreases pairs.len() - i,
    {
        let p = &pairs[i];
        if p.0 == *key {
            proof {
                assert(pairs@.skip(i as int)[0] == pairs@[i as int]);
            }
            return Some(&p.1);
        }
        proof {
            assert(pairs@.skip(i as int)[0] == pairs@[i as int]);
            assert(pairs@.skip(i as int).drop_first() =~= pairs@.skip(i + 1));
        }
        i = i + 1;
    }
    proof {
        assert(pairs@.skip(pairs@.len() as int).len() == 0);
    }
    None
}

} // verus!
