//! The sink model: derives the rows of the consolidated output from the
//! final keyed collection. Writing the rows out is the caller's business;
//! everything about their content is decided here.

use vstd::prelude::*;

use crate::colony::{spec_num_trunc, num_trunc, Colony};
use crate::set::{lemma_seq_to_map_props, lemma_seq_to_map_unique, ColonySet};

verus! {

/// The derived status column of a row: empty when the colony was never
/// visited, otherwise whether it is active.
#[derive(Clone, Copy, PartialEq, Eq, Structural, Debug)]
pub enum Status {
    Unvisited,
    Active,
    NotActive,
}

impl Status {
    /// The column text: the empty string, `A`, or `NA`.
    pub open spec fn spec_text(self) -> Seq<char> {
        match self {
            Status::Unvisited => ""@,
            Status::Active => "A"@,
            Status::NotActive => "NA"@,
        }
    }

    /// The column text: the empty string, `A`, or `NA`.
    pub fn text(&self) -> (r: &'static str)
        ensures
            r@ == self.spec_text(),
    {
        match self {
            Status::Unvisited => "",
            Status::Active => "A",
            Status::NotActive => "NA",
        }
    }
}

/// One output row: identifier, the two coordinates truncated to unsigned
/// integers (the one documented numeric formatting of this library, matching
/// the serializer), and the derived status.
#[derive(Clone, Copy, PartialEq, Eq, Structural, Debug)]
pub struct Row {
    pub id: u32,
    pub x: u64,
    pub y: u64,
    pub status: Status,
}

/// The status a colony's row carries.
pub open spec fn spec_status(c: Colony) -> Status {
    if !c.visited {
        Status::Unvisited
    } else if c.active {
        Status::Active
    } else {
        Status::NotActive
    }
}

/// The row a colony yields.
pub open spec fn spec_row(c: Colony) -> Row {
    Row { id: c.id, x: spec_num_trunc(c.x), y: spec_num_trunc(c.y), status: spec_status(c) }
}

/// Derives the status column of one colony.
pub fn status_of(c: &Colony) -> (r: Status)
    ensures
        r == spec_status(*c),
{
    if !c.visited {
        Status::Unvisited
    } else if c.active {
        Status::Active
    } else {
        Status::NotActive
    }
}

/// Derives one output row per colony of the final collection: exactly one
/// for each identifier, each carrying what its colony prescribes. Row order
/// is unspecified.
pub fn csv_rows(set: &ColonySet) -> (r: Vec<Row>)
    requires
        set.wf(),
    ensures
        r@.len() == set@.dom().len(),
        forall|i: int|
            0 <= i < r@.len() ==> set@.dom().contains(#[trigger] r@[i].id) && r@[i] == spec_row(
                set@[r@[i].id],
            ),
        forall|k: u32| #[trigger]
            set@.dom().contains(k) ==> exists|i: int| 0 <= i < r@.len() && r@[i].id == k,
{
    let colonies = set.to_vec();
    proof {
        lemma_seq_to_map_props(colonies@);
        lemma_seq_to_map_unique(colonies@);
    }
    let mut rows: Vec<Row> = Vec::new();
    let mut i: usize = 0;
    while i < colonies.len()
        invariant
            i <= colonies@.len(),
            rows@.len() == i,
            seq_to_map_eq_view(colonies@, set@),
            forall|j: int|
                0 <= j < colonies@.len() ==> set@.dom().contains(#[trigger] colonies@[j].id)
                    && set@[colonies@[j].id] == colonies@[j],
            forall|j: int| 0 <= j < i ==> rows@[j] == spec_row(#[trigger] colonies@[j]),
            forall|j: int| 0 <= j < i ==> rows@[j].id == #[trigger] colonies@[j].id,
        decreases colonies.len() - i,
    {
        let c = colonies[i];
        rows.push(Row { id: c.id, x: num_trunc(&c.x), y: num_trunc(&c.y), status: status_of(&c) });
        i = i + 1;
    }
    proof {
        assert forall|k: u32| #[trigger] set@.dom().contains(k) implies exists|i2: int|
            0 <= i2 < rows@.len() && rows@[i2].id == k by {
            let j = choose|j: int| 0 <= j < colonies@.len() && #[trigger] colonies@[j].id == k;
            assert(rows@[j].id == k);
        }
        assert forall|i2: int| 0 <= i2 < rows@.len() implies set@.dom().contains(
            #[trigger] rows@[i2].id,
        ) && rows@[i2] == spec_row(set@[rows@[i2].id]) by {
            assert(rows@[i2] == spec_row(colonies@[i2]));
            assert(rows@[i2].id == colonies@[i2].id);
            assert(set@[colonies@[i2].id] == colonies@[i2]);
        }
    }
    rows
}

/// The sequence denotes exactly this mapping: a fact the row loop carries
/// about the collection it walks.
spec fn seq_to_map_eq_view(s: Seq<Colony>, m: Map<u32, Colony>) -> bool {
    crate::set::seq_to_map(s) == m && m.dom().len() == s.len()
}

} // verus!
