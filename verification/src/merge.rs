//! The merge engine: folds one keyed collection into another, resolving key
//! collisions with the deterministic reconciliation rule.

use vstd::prelude::*;

use crate::colony::Colony;
use crate::set::{ids_unique, map_keyed, seq_to_map, ColonySet, lemma_seq_to_map_props};

verus! {

/// The reconciliation rule between two colonies sharing an identifier: the
/// strictly later `updated` wins; on equal timestamps an active colony beats
/// an inactive one; otherwise the first argument is kept, the fixed tie-break
/// that keeps the choice deterministic.
pub open spec fn spec_choose(c1: Colony, c2: Colony) -> Colony {
    if c1.updated.spec_lt(c2.updated) {
        c2
    } else if c2.updated.spec_lt(c1.updated) {
        c1
    } else if !c1.active && c2.active {
        c2
    } else {
        c1
    }
}

/// The mapping that merging two keyed collections denotes: every key of
/// either side is present; a key of both sides carries the winner of the
/// reconciliation rule, applied to the accumulated entry first.
pub open spec fn spec_merge(m1: Map<u32, Colony>, m2: Map<u32, Colony>) -> Map<u32, Colony> {
    Map::new(
        |k: u32| m1.dom().contains(k) || m2.dom().contains(k),
        |k: u32|
            if m1.dom().contains(k) && m2.dom().contains(k) {
                spec_choose(m1[k], m2[k])
            } else if m2.dom().contains(k) {
                m2[k]
            } else {
                m1[k]
            },
    )
}

/// Picks the winner between two colonies recording the same identifier.
pub fn choose_colony(c1: Colony, c2: Colony) -> (r: Colony)
    requires
        c1.id == c2.id,
    ensures
        r == spec_choose(c1, c2),
{
    if c1.updated.is_before(&c2.updated) {
        c2
    } else if c2.updated.is_before(&c1.updated) {
        c1
    } else if !c1.active && c2.active {
        c2
    } else {
        c1
    }
}

/// Merges `set2` into `set1`: a colony whose identifier is new is inserted,
/// a collision is resolved by the reconciliation rule.
pub fn merge_sets(set1: ColonySet, set2: ColonySet) -> (r: ColonySet)
    requires
        set1.wf(),
        set2.wf(),
    ensures
        r.wf(),
        r@ == spec_merge(set1@, set2@),
{
    let ghost m1 = set1@;
    let ghost m2 = set2@;
    proof {
        set1.lemma_view_keyed();
    }
    let mut out = set1;
    let incoming = set2.to_vec();
    proof {
        lemma_seq_to_map_props(incoming@);
    }
    let mut i: usize = 0;
    while i < incoming.len()
        invariant
            i <= incoming@.len(),
            ids_unique(incoming@),
            seq_to_map(incoming@) == m2,
            map_keyed(m1),
            out.wf(),
            out@ == spec_merge(m1, seq_to_map(incoming@.take(i as int))),
        decreases incoming.len() - i,
    {
        let c2 = incoming[i];
        let ghost processed = seq_to_map(incoming@.take(i as int));
        proof {
            lemma_seq_to_map_props(incoming@.take(i as int));
            assert(forall|j: int|
                0 <= j < i ==> incoming@.take(i as int)[j] == incoming@[j]);
            assert(!processed.dom().contains(c2.id)) by {
                if processed.dom().contains(c2.id) {
                    let j = choose|j: int|
                        0 <= j < i && #[trigger] incoming@.take(i as int)[j].id == c2.id;
                    assert(incoming@[j].id == incoming@[i as int].id);
                }
            }
            assert(map_keyed(processed));
            if m1.dom().contains(c2.id) {
                assert(out@[c2.id] == m1[c2.id]);
            }
        }
        let chosen: Colony;
        match out.get(c2.id) {
            Some(c1) => {
                chosen = choose_colony(*c1, c2);
            },
            None => {
                chosen = c2;
            },
        }
        proof {
            assert(chosen.id == c2.id);
        }
        out.insert(chosen);
        proof {
            assert(incoming@.take(i + 1).drop_last() =~= incoming@.take(i as int));
            assert(incoming@.take(i + 1).last() == incoming@[i as int]);
            assert(seq_to_map(incoming@.take(i + 1)) == processed.insert(c2.id, c2));
            assert(out@ =~= spec_merge(m1, processed.insert(c2.id, c2)));
        }
        i = i + 1;
    }
    proof {
        assert(incoming@.take(incoming@.len() as int) =~= incoming@);
        assert(out@ =~= spec_merge(m1, m2));
    }
    out
}

/// The reconciliation rule keeps the shared identifier: the winner between
/// two colonies with one identifier carries that identifier, and where the
/// timestamps differ the winner is exactly the later-updated colony.
pub proof fn lemma_choose_keeps_id(a: Colony, b: Colony)
    requires
        a.id == b.id,
    ensures
        spec_choose(a, b).id == a.id,
        spec_choose(a, b).id == b.id,
        a.updated != b.updated ==> spec_choose(a, b) == if a.updated.spec_lt(b.updated) {
            b
        } else {
            a
        },
{
}

/// Merging a collection with itself changes nothing, so a second merge of the
/// same source is idempotent.
pub proof fn lemma_merge_idempotent(m: Map<u32, Colony>)
    ensures
        spec_merge(m, m) == m,
        spec_merge(spec_merge(m, m), m) == spec_merge(m, m),
{
    assert(spec_merge(m, m) =~= m);
}

/// Merging two collections with disjoint identifiers is the plain union:
/// every entry of either side, unchanged, and the sizes add up.
pub proof fn lemma_merge_disjoint(m1: Map<u32, Colony>, m2: Map<u32, Colony>)
    requires
        m1.dom().disjoint(m2.dom()),
        m1.dom().finite(),
        m2.dom().finite(),
    ensures
        spec_merge(m1, m2) == m1.union_prefer_right(m2),
        spec_merge(m1, m2).dom().len() == m1.dom().len() + m2.dom().len(),
{
    broadcast use vstd::set_lib::lemma_set_disjoint_lens;

    assert(spec_merge(m1, m2) =~= m1.union_prefer_right(m2));
    assert(spec_merge(m1, m2).dom() =~= m1.dom() + m2.dom());
}

} // verus!
