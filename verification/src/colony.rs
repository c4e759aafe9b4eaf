//! The record model: the `Colony` entity, its validation out of a structured
//! value, and its serialization back into one.

use vstd::prelude::*;

use crate::json::{spec_get, get_field, JsonValue};
use crate::time::{format_rfc3339, parse_rfc3339, rfc3339_instant, rfc3339_text, Timestamp};

verus! {

/// The required fields of a colony record, in validation order.
#[derive(Clone, Copy, PartialEq, Eq, Structural, Debug)]
pub enum Field {
    Id,
    X,
    Y,
    Visited,
    Active,
    Updated,
}

/// Everything that can go wrong while loading colonies, from one record up
/// to the whole run.
#[derive(Clone, Copy, PartialEq, Eq, Structural, Debug)]
pub enum DataError {
    /// A record is not an object-like value.
    InvalidShape,
    /// A required field is absent from a record.
    MissingField(Field),
    /// A required field is present but of the wrong type.
    WrongType(Field),
    /// The modification time is a string but not a valid RFC 3339 instant.
    MalformedTimestamp,
    /// A document's outermost value is not an object.
    RootNotObject,
    /// A document has no `colonies` key holding an array.
    MissingColoniesArray,
    /// A source could not be opened or read.
    SourceUnreadable,
    /// A source's content could not be parsed as structured data.
    MalformedDocument,
    /// The destination could not be opened or created.
    SinkUnwritable,
}

/// A numeric coordinate as it arrived: a signed or unsigned integer, or a
/// floating-point number carried as its IEEE 754 binary64 bit pattern.
#[derive(Clone, Copy, PartialEq, Eq, Structural, Debug)]
pub enum Num {
    Int(i64),
    UInt(u64),
    Float(u64),
}

/// A geolocated colony record.
#[derive(Clone, Copy, PartialEq, Eq, Structural, Debug)]
pub struct Colony {
    /// The unique key within any keyed collection.
    pub id: u32,
    /// Coordinates, kept as they arrived.
    pub x: Num,
    pub y: Num,
    /// Whether the colony has been physically visited.
    pub visited: bool,
    /// Whether the colony is active; meaningful only when `visited` holds.
    pub active: bool,
    /// The modification time, the primary ordering key for reconciliation.
    pub updated: Timestamp,
}

impl Colony {
    /// A colony is well formed when its timestamp is.
    pub open spec fn wf(self) -> bool {
        self.updated.wf()
    }
}

/// The key under which a field is looked up in the structured form. The
/// modification time is keyed `modified` on the wire though its error names
/// the `updated` field.
pub open spec fn field_key(f: Field) -> Seq<char> {
    match f {
        Field::Id => "id"@,
        Field::X => "x"@,
        Field::Y => "y"@,
        Field::Visited => "visited"@,
        Field::Active => "active"@,
        Field::Updated => "modified"@,
    }
}

/// The validated `id` field: an integer of either signedness, coerced to
/// unsigned 32-bit by truncation.
pub open spec fn spec_id(pairs: Seq<(String, JsonValue)>) -> Result<u32, DataError> {
    match spec_get(pairs, "id"@) {
        None => Err(DataError::MissingField(Field::Id)),
        Some(v) => match v {
            JsonValue::Int(i) => Ok(i as u32),
            JsonValue::UInt(u) => Ok(u as u32),
            _ => Err(DataError::WrongType(Field::Id)),
        },
    }
}

/// A validated numeric field: any of the three numeric shapes, kept as it
/// arrived.
pub open spec fn spec_num(pairs: Seq<(String, JsonValue)>, f: Field) -> Result<Num, DataError> {
    match spec_get(pairs, field_key(f)) {
        None => Err(DataError::MissingField(f)),
        Some(v) => match v {
            JsonValue::Int(i) => Ok(Num::Int(i)),
            JsonValue::UInt(u) => Ok(Num::UInt(u)),
            JsonValue::Float(b) => Ok(Num::Float(b)),
            _ => Err(DataError::WrongType(f)),
        },
    }
}

/// A validated boolean field.
pub open spec fn spec_bool(pairs: Seq<(String, JsonValue)>, f: Field) -> Result<
    bool,
    DataError,
> {
    match spec_get(pairs, field_key(f)) {
        None => Err(DataError::MissingField(f)),
        Some(v) => match v {
            JsonValue::Bool(b) => Ok(b),
            _ => Err(DataError::WrongType(f)),
        },
    }
}

/// The validated modification time. A string must parse as RFC 3339; a
/// present value of any other type is not an error but the far-past
/// sentinel; only an absent key is a missing field.
pub open spec fn spec_updated(pairs: Seq<(String, JsonValue)>) -> Result<Timestamp, DataError> {
    match spec_get(pairs, "modified"@) {
        None => Err(DataError::MissingField(Field::Updated)),
        Some(v) => match v {
            JsonValue::Str(s) => match rfc3339_instant(s@) {
                Some(t) => Ok(t),
                None => Err(DataError::MalformedTimestamp),
            },
            _ => Ok(Timestamp::spec_sentinel()),
        },
    }
}

/// Validation of an object's pairs: each field checked independently, the
/// first missing or invalid field in the fixed order id, x, y, visited,
/// active, updated determines the reported error.
pub open spec fn spec_from_pairs(pairs: Seq<(String, JsonValue)>) -> Result<Colony, DataError> {
    match spec_id(pairs) {
        Err(e) => Err(e),
        Ok(id) => match spec_num(pairs, Field::X) {
            Err(e) => Err(e),
            Ok(x) => match spec_num(pairs, Field::Y) {
                Err(e) => Err(e),
                Ok(y) => match spec_bool(pairs, Field::Visited) {
                    Err(e) => Err(e),
                    Ok(visited) => match spec_bool(pairs, Field::Active) {
                        Err(e) => Err(e),
                        Ok(active) => match spec_updated(pairs) {
                            Err(e) => Err(e),
                            Ok(updated) => Ok(
                                Colony { id, x, y, visited, active, updated },
                            ),
                        },
                    },
                },
            },
        },
    }
}

/// Validated construction of a colony from a structured value: an object
/// whose fields pass `spec_from_pairs`, anything else an invalid shape.
pub open spec fn spec_from_json(v: JsonValue) -> Result<Colony, DataError> {
    match v {
        JsonValue::Object(pairs) => spec_from_pairs(pairs@),
        _ => Err(DataError::InvalidShape),
    }
}

/// A field is admissible in an object's pairs: present, and of a shape its
/// validation accepts. For the modification time any present value is
/// admissible except a string that does not parse as RFC 3339.
pub open spec fn field_admissible(pairs: Seq<(String, JsonValue)>, f: Field) -> bool {
    match spec_get(pairs, field_key(f)) {
        None => false,
        Some(v) => match f {
            Field::Id => v is Int || v is UInt,
            Field::X | Field::Y => v is Int || v is UInt || v is Float,
            Field::Visited | Field::Active => v is Bool,
            Field::Updated => match v {
                JsonValue::Str(s) => rfc3339_instant(s@) is Some,
                _ => true,
            },
        },
    }
}

/// The position of a field in the fixed validation order.
pub open spec fn field_order(f: Field) -> int {
    match f {
        Field::Id => 0,
        Field::X => 1,
        Field::Y => 2,
        Field::Visited => 3,
        Field::Active => 4,
        Field::Updated => 5,
    }
}

/// The identifier a record's `id` field denotes, coerced to unsigned 32-bit
/// by truncation.
pub open spec fn spec_id_value(pairs: Seq<(String, JsonValue)>) -> u32
    recommends
        field_admissible(pairs, Field::Id),
{
    match spec_get(pairs, "id"@) {
        Some(v) => match v {
            JsonValue::Int(i) => i as u32,
            JsonValue::UInt(u) => u as u32,
            _ => 0,
        },
        None => 0,
    }
}

/// A record object whose required fields are all present and admissible
/// validates successfully, and the resulting colony's identifier is the
/// record's `id` coerced to unsigned 32-bit.
pub proof fn lemma_valid_record_succeeds(pairs: Seq<(String, JsonValue)>)
    requires
        forall|f: Field| #[trigger] field_admissible(pairs, f),
    ensures
        spec_from_pairs(pairs) matches Ok(c) && c.id == spec_id_value(pairs),
{
    assert(field_admissible(pairs, Field::Id));
    assert(field_admissible(pairs, Field::X));
    assert(field_admissible(pairs, Field::Y));
    assert(field_admissible(pairs, Field::Visited));
    assert(field_admissible(pairs, Field::Active));
    assert(field_admissible(pairs, Field::Updated));
}

/// A record object missing one required field, all earlier-order fields
/// being admissible, fails validation with a missing-field error naming
/// exactly that field.
pub proof fn lemma_missing_field_reported(pairs: Seq<(String, JsonValue)>, f: Field)
    requires
        spec_get(pairs, field_key(f)) is None,
        forall|g: Field| field_order(g) < field_order(f) ==> #[trigger] field_admissible(
            pairs,
            g,
        ),
    ensures
        spec_from_pairs(pairs) == Err::<Colony, DataError>(DataError::MissingField(f)),
{
    match f {
        Field::Id => {
        },
        Field::X => {
            assert(field_admissible(pairs, Field::Id));
        },
        Field::Y => {
            assert(field_admissible(pairs, Field::Id));
            assert(field_admissible(pairs, Field::X));
        },
        Field::Visited => {
            assert(field_admissible(pairs, Field::Id));
            assert(field_admissible(pairs, Field::X));
            assert(field_admissible(pairs, Field::Y));
        },
        Field::Active => {
            assert(field_admissible(pairs, Field::Id));
            assert(field_admissible(pairs, Field::X));
            assert(field_admissible(pairs, Field::Y));
            assert(field_admissible(pairs, Field::Visited));
        },
        Field::Updated => {
            assert(field_admissible(pairs, Field::Id));
            assert(field_admissible(pairs, Field::X));
            assert(field_admissible(pairs, Field::Y));
            assert(field_admissible(pairs, Field::Visited));
            assert(field_admissible(pairs, Field::Active));
        },
    }
}

/// Truncation of an IEEE 754 binary64 number, given as its bit pattern, to
/// an unsigned 64-bit integer, saturating as a hardware cast does: anything
/// negative or not a number gives 0, anything at or above 2^64 gives the
/// largest value. Stated directly over the sign, exponent and fraction bit
/// fields, which is the most direct form available without a float type.
pub open spec fn spec_float_trunc(bits: u64) -> u64 {
    let neg = (bits >> 63) == 1;
    let exp = (bits >> 52) & 0x7FF;
    let frac = bits & 0xF_FFFF_FFFF_FFFF;
    if exp == 0x7FF {
        if frac == 0 && !neg {
            u64::MAX
        } else {
            0
        }
    } else if neg || exp < 1023 {
        0
    } else if exp >= 1087 {
        u64::MAX
    } else if exp >= 1075 {
        (frac | 0x10_0000_0000_0000) << (exp - 1075)
    } else {
        (frac | 0x10_0000_0000_0000) >> (1075 - exp)
    }
}

/// A numeric coordinate truncated to an unsigned integer for the
/// serialization path: the fractional part dropped, negatives clamped to 0.
pub open spec fn spec_num_trunc(n: Num) -> u64 {
    match n {
        Num::Int(i) => if i < 0 {
            0u64
        } else {
            i as u64
        },
        Num::UInt(u) => u,
        Num::Float(bits) => spec_float_trunc(bits),
    }
}

/// Truncates a numeric coordinate to an unsigned integer.
pub fn num_trunc(n: &Num) -> (r: u64)
    ensures
        r == spec_num_trunc(*n),
{
    match n {
        Num::Int(i) => {
            if *i < 0 {
                0
            } else {
                *i as u64
            }
        },
        Num::UInt(u) => *u,
        Num::Float(bits) => {
            let b = *bits;
            let neg = (b >> 63u64) == 1;
            let exp = (b >> 52u64) & 0x7FF;
            let frac = b & 0xF_FFFF_FFFF_FFFF;
            if exp == 0x7FF {
                if frac == 0 && !neg {
                    u64::MAX
                } else {
                    0
                }
            } else if neg || exp < 1023 {
                0
            } else if exp >= 1087 {
                u64::MAX
            } else if exp >= 1075 {
                (frac | 0x10_0000_0000_0000) << (exp - 1075)
            } else {
                (frac | 0x10_0000_0000_0000) >> (1075 - exp)
            }
        },
    }
}

/// The structured form that serialization emits for a colony: an object with
/// the six fields in their fixed order, coordinates truncated to unsigned
/// integers, the modification time as an RFC 3339 string in UTC.
pub open spec fn structured_form(c: Colony, r: JsonValue) -> bool {
    match r {
        JsonValue::Object(pairs) => {
            &&& pairs@.len() == 6
            &&& pairs@[0].0@ == "id"@ && pairs@[0].1 == JsonValue::UInt(c.id as u64)
            &&& pairs@[1].0@ == "x"@ && pairs@[1].1 == JsonValue::UInt(spec_num_trunc(c.x))
            &&& pairs@[2].0@ == "y"@ && pairs@[2].1 == JsonValue::UInt(spec_num_trunc(c.y))
            &&& pairs@[3].0@ == "visited"@ && pairs@[3].1 == JsonValue::Bool(c.visited)
            &&& pairs@[4].0@ == "active"@ && pairs@[4].1 == JsonValue::Bool(c.active)
            &&& pairs@[5].0@ == "modified"@ && (pairs@[5].1 matches JsonValue::Str(s)
                && s@ == rfc3339_text(c.updated))
        },
        _ => false,
    }
}

impl Colony {
    /// Serializes the colony back to the generic structured form. The
    /// coordinates are emitted as truncated unsigned integers: a lossy round
    /// trip, kept deliberately.
    pub fn to_structured(&self) -> (r: JsonValue)
        requires
            self.wf(),
        ensures
            structured_form(*self, r),
    {
        let mut pairs: Vec<(String, JsonValue)> = Vec::new();
        pairs.push(("id".to_owned(), JsonValue::UInt(self.id as u64)));
        pairs.push(("x".to_owned(), JsonValue::UInt(num_trunc(&self.x))));
        pairs.push(("y".to_owned(), JsonValue::UInt(num_trunc(&self.y))));
        pairs.push(("visited".to_owned(), JsonValue::Bool(self.visited)));
        pairs.push(("active".to_owned(), JsonValue::Bool(self.active)));
        pairs.push(("modified".to_owned(), JsonValue::Str(format_rfc3339(&self.updated))));
        JsonValue::Object(pairs)
    }

    /// Constructs a colony from a generic structured value, validating every
    /// field; the first missing or invalid field in the order id, x, y,
    /// visited, active, updated decides the error.
    pub fn from_json(json: &JsonValue) -> (r: Result<Colony, DataError>)
        ensures
            r == spec_from_json(*json),
            r matches Ok(c) ==> c.wf(),
    {
        match json {
            JsonValue::Object(pairs) => {
                let id: u32;
                let key_id = "id".to_owned();
                match get_field(pairs, &key_id) {
                    None => {
                        return Err(DataError::MissingField(Field::Id));
                    },
                    Some(JsonValue::Int(i)) => {
                        id = #[verifier::truncate] (*i as u32);
                    },
                    Some(JsonValue::UInt(u)) => {
                        id = #[verifier::truncate] (*u as u32);
                    },
                    Some(_) => {
                        return Err(DataError::WrongType(Field::Id));
                    },
                }
                let x: Num;
                let key_x = "x".to_owned();
                match get_field(pairs, &key_x) {
                    None => {
                        return Err(DataError::MissingField(Field::X));
                    },
                    Some(JsonValue::Int(i)) => {
                        x = Num::Int(*i);
                    },
                    Some(JsonValue::UInt(u)) => {
                        x = Num::UInt(*u);
                    },
                    Some(JsonValue::Float(b)) => {
                        x = Num::Float(*b);
                    },
                    Some(_) => {
                        return Err(DataError::WrongType(Field::X));
                    },
                }
                let y: Num;
                let key_y = "y".to_owned();
                match get_field(pairs, &key_y) {
                    None => {
                        return Err(DataError::MissingField(Field::Y));
                    },
                    Some(JsonValue::Int(i)) => {
                        y = Num::Int(*i);
                    },
                    Some(JsonValue::UInt(u)) => {
                        y = Num::UInt(*u);
                    },
                    Some(JsonValue::Float(b)) => {
                        y = Num::Float(*b);
                    },
                    Some(_) => {
                        return Err(DataError::WrongType(Field::Y));
                    },
                }
                let visited: bool;
                let key_visited = "visited".to_owned();
                match get_field(pairs, &key_visited) {
                    None => {
                        return Err(DataError::MissingField(Field::Visited));
                    },
                    Some(JsonValue::Bool(b)) => {
                        visited = *b;
                    },
                    Some(_) => {
                        return Err(DataError::WrongType(Field::Visited));
                    },
                }
                let active: bool;
                let key_active = "active".to_owned();
                match get_field(pairs, &key_active) {
                    None => {
                        return Err(DataError::MissingField(Field::Active));
                    },
                    Some(JsonValue::Bool(b)) => {
                        active = *b;
                    },
                    Some(_) => {
                        return Err(DataError::WrongType(Field::Active));
                    },
                }
                let updated: Timestamp;
                let key_modified = "modified".to_owned();
                match get_field(pairs, &key_modified) {
                    None => {
                        return Err(DataError::MissingField(Field::Updated));
                    },
                    Some(JsonValue::Str(s)) => {
                        match parse_rfc3339(s.as_str()) {
                            Some(t) => {
                                updated = t;
                            },
                            None => {
                                return Err(DataError::MalformedTimestamp);
                            },
                        }
                    },
                    Some(_) => {
                        updated = Timestamp::sentinel();
                    },
                }
                Ok(Colony { id, x, y, visited, active, updated })
            },
            _ => Err(DataError::InvalidShape),
        }
    }
}

} // verus!
