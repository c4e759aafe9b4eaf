//! The source loader: turns one structured document into a keyed collection
//! of colonies, tolerating and reporting per-record failures.

use vstd::prelude::*;

use crate::colony::{spec_from_json, Colony, DataError};
use crate::json::{get_field, spec_get, JsonValue};
use crate::set::ColonySet;

verus! {

/// The record array of a document: the value of its `colonies` key, where
/// the document is an object and that value is an array.
pub open spec fn spec_doc_items(doc: JsonValue) -> Option<Seq<JsonValue>> {
    match doc {
        JsonValue::Object(pairs) => match spec_get(pairs@, "colonies"@) {
            Some(v) => match v {
                JsonValue::Array(items) => Some(items@),
                _ => None,
            },
            None => None,
        },
        _ => None,
    }
}

/// The keyed collection that loading a record array yields: each record that
/// validates is stored under its identifier, a later record silently
/// overwriting an earlier one with the same identifier; a record that fails
/// validation contributes nothing.
pub open spec fn spec_load_map(items: Seq<JsonValue>) -> Map<u32, Colony>
    decreases items.len(),
{
    if items.len() == 0 {
        Map::empty()
    } else {
        let prev = spec_load_map(items.drop_last());
        match spec_from_json(items.last()) {
            Ok(c) => prev.insert(c.id, c),
            Err(_) => prev,
        }
    }
}

/// The validation failures that loading a record array reports, in record
/// order.
pub open spec fn spec_load_errors(items: Seq<JsonValue>) -> Seq<DataError>
    decreases items.len(),
{
    if items.len() == 0 {
        Seq::empty()
    } else {
        let prev = spec_load_errors(items.drop_last());
        match spec_from_json(items.last()) {
            Ok(_) => prev,
            Err(e) => prev.push(e),
        }
    }
}

/// What loading a whole document yields: the loaded mapping, or the error
/// that rejects the document as a whole.
pub open spec fn spec_load_doc(doc: JsonValue) -> Result<Map<u32, Colony>, DataError> {
    match spec_doc_items(doc) {
        Some(items) => Ok(spec_load_map(items)),
        None => if doc is Object {
            Err(DataError::MissingColoniesArray)
        } else {
            Err(DataError::RootNotObject)
        },
    }
}

/// Loads one structured document into a keyed collection. The document must
/// be an object holding a `colonies` array; each array element is validated
/// independently, a failure being reported in the second component and the
/// element skipped, never fatal to the load.
pub fn load_document(doc: &JsonValue) -> (r: Result<(ColonySet, Vec<DataError>), DataError>)
    ensures
        match r {
            Ok(p) => {
                &&& p.0.wf()
                &&& spec_doc_items(*doc) matches Some(items)
                    && p.0@ == spec_load_map(items)
                    && p.1@ == spec_load_errors(items)
            },
            Err(e) => spec_load_doc(*doc) == Err::<Map<u32, Colony>, DataError>(e),
        },
{
    match doc {
        JsonValue::Object(pairs) => {
            let key = "colonies".to_owned();
            match get_field(pairs, &key) {
                Some(JsonValue::Array(items)) => {
                    let mut set = ColonySet::new();
                    let mut errors: Vec<DataError> = Vec::new();
                    let mut i: usize = 0;
                    while i < items.len()
                        invariant
                            i <= items@.len(),
                            set.wf(),
                            set@ == spec_load_map(items@.take(i as int)),
                            errors@ == spec_load_errors(items@.take(i as int)),
                        decreases items.len() - i,
                    {
                        match Colony::from_json(&items[i]) {
                            Ok(c) => {
                                set.insert(c);
                            },
                            Err(e) => {
                                errors.push(e);
                            },
                        }
                        proof {
                            assert(items@.take(i + 1).drop_last() =~= items@.take(i as int));
                            assert(items@.take(i + 1).last() == items@[i as int]);
                        }
                        i = i + 1;
                    }
                    proof {
                        assert(items@.take(items@.len() as int) =~= items@);
                    }
                    Ok((set, errors))
                },
                Some(_) => Err(DataError::MissingColoniesArray),
                None => Err(DataError::MissingColoniesArray),
            }
        },
        _ => Err(DataError::RootNotObject),
    }
}

} // verus!
