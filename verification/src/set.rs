//! The keyed collection: a mapping from colony identifier to exactly one
//! colony, the working set at every merge stage.

use vstd::prelude::*;

use crate::colony::Colony;

verus! {

/// No two entries share an identifier.
pub open spec fn ids_unique(s: Seq<Colony>) -> bool {
    forall|i: int, j: int| 0 <= i < j < s.len() ==> s[i].id != s[j].id
}

/// The mapping that a sequence of colonies denotes, each keyed by its own
/// identifier, a later entry overwriting an earlier one.
pub open spec fn seq_to_map(s: Seq<Colony>) -> Map<u32, Colony>
    decreases s.len(),
{
    if s.len() == 0 {
        Map::empty()
    } else {
        seq_to_map(s.drop_last()).insert(s.last().id, s.last())
    }
}

/// The denoted mapping is finite, keyed exactly by the identifiers that occur
/// in the sequence, and maps every key to a colony carrying that key.
pub proof fn lemma_seq_to_map_props(s: Seq<Colony>)
    ensures
        seq_to_map(s).dom().finite(),
        forall|k: u32|
            seq_to_map(s).dom().contains(k) <==> exists|i: int|
                0 <= i < s.len() && #[trigger] s[i].id == k,
        forall|k: u32| #[trigger]
            seq_to_map(s).dom().contains(k) ==> seq_to_map(s)[k].id == k,
    decreases s.len(),
{
    if s.len() > 0 {
        lemma_seq_to_map_props(s.drop_last());
        assert forall|k: u32| seq_to_map(s).dom().contains(k) implies exists|i: int|
            0 <= i < s.len() && #[trigger] s[i].id == k by {
            if k == s.last().id {
                assert(s[s.len() - 1].id == k);
            } else {
                let i = choose|i: int| 0 <= i < s.drop_last().len() && #[trigger] s.drop_last()[i].id == k;
                assert(s[i].id == k);
            }
        }
        assert forall|k: u32| exists|i: int| 0 <= i < s.len() && #[trigger] s[i].id == k
            implies seq_to_map(s).dom().contains(k) by {
            let i = choose|i: int| 0 <= i < s.len() && #[trigger] s[i].id == k;
            if i < s.len() - 1 {
                assert(s.drop_last()[i].id == k);
            }
        }
    }
}

/// Under unique identifiers the denoted mapping returns each entry at its own
/// key and has exactly one key per entry.
pub proof fn lemma_seq_to_map_unique(s: Seq<Colony>)
    requires
        ids_unique(s),
    ensures
        seq_to_map(s).dom().len() == s.len(),
        forall|i: int| 0 <= i < s.len() ==> seq_to_map(s)[#[trigger] s[i].id] == s[i],
    decreases s.len(),
{
    broadcast use vstd::set::axiom_set_insert_len;

    lemma_seq_to_map_props(s);
    if s.len() > 0 {
        let prefix = s.drop_last();
        lemma_seq_to_map_unique(prefix);
        lemma_seq_to_map_props(prefix);
        assert(!seq_to_map(prefix).dom().contains(s.last().id)) by {
            if seq_to_map(prefix).dom().contains(s.last().id) {
                let i = choose|i: int|
                    0 <= i < prefix.len() && #[trigger] prefix[i].id == s.last().id;
                assert(s[i].id == s[s.len() - 1].id);
            }
        }
        assert forall|i: int| 0 <= i < s.len() implies seq_to_map(s)[#[trigger] s[i].id]
            == s[i] by {
            if i < s.len() - 1 {
                assert(prefix[i] == s[i]);
                assert(s[i].id != s.last().id);
            }
        }
    }
}

/// Every colony of the mapping is stored under its own identifier.
pub open spec fn map_keyed(m: Map<u32, Colony>) -> bool {
    forall|k: u32| #[trigger] m.dom().contains(k) ==> m[k].id == k
}

/// A keyed collection of colonies: a mapping from identifier to exactly one
/// colony. Its view is that mapping; insertion order is irrelevant to it.
#[derive(Debug)]
pub struct ColonySet {
    entries: Vec<Colony>,
}

impl View for ColonySet {
    type V = Map<u32, Colony>;

    closed spec fn view(&self) -> Map<u32, Colony> {
        seq_to_map(self.entries@)
    }
}

impl ColonySet {
    /// The collection is well formed: no two entries share an identifier.
    /// Every constructor establishes this and every method keeps it.
    pub closed spec fn wf(&self) -> bool {
        ids_unique(self.entries@)
    }

    /// The empty collection.
    pub fn new() -> (r: ColonySet)
        ensures
            r.wf(),
            r@ == Map::<u32, Colony>::empty(),
    {
        ColonySet { entries: Vec::new() }
    }

    /// How many colonies the collection holds.
    pub fn len(&self) -> (r: usize)
        requires
            self.wf(),
        ensures
            r == self@.dom().len(),
    {
        proof {
            lemma_seq_to_map_unique(self.entries@);
        }
        self.entries.len()
    }

    /// Whether a colony with this identifier is present.
    pub fn contains(&self, id: u32) -> (r: bool)
        requires
            self.wf(),
        ensures
            r == self@.dom().contains(id),
    {
        proof {
            lemma_seq_to_map_props(self.entries@);
        }
        let mut i: usize = 0;
        while i < self.entries.len()
            invariant
                i <= self.entries@.len(),
                forall|j: int| 0 <= j < i ==> self.entries@[j].id != id,
                forall|k: u32|
                    self@.dom().contains(k) <==> exists|j: int|
                        0 <= j < self.entries@.len() && #[trigger] self.entries@[j].id == k,
            decreases self.entries.len() - i,
        {
            if self.entries[i].id == id {
                return true;
            }
            i = i + 1;
        }
        false
    }

    /// The colony stored under this identifier, if any.
    pub fn get(&self, id: u32) -> (r: Option<&Colony>)
        requires
            self.wf(),
        ensures
            match r {
                Some(c) => self@.dom().contains(id) && *c == self@[id],
                None => !self@.dom().contains(id),
            },
    {
        proof {
            lemma_seq_to_map_props(self.entries@);
            lemma_seq_to_map_unique(self.entries@);
        }
        let mut i: usize = 0;
        while i < self.entries.len()
            invariant
                i <= self.entries@.len(),
                forall|j: int| 0 <= j < i ==> self.entries@[j].id != id,
                ids_unique(self.entries@),
                forall|k: u32|
                    self@.dom().contains(k) <==> exists|j: int|
                        0 <= j < self.entries@.len() && #[trigger] self.entries@[j].id == k,
                forall|j: int|
                    0 <= j < self.entries@.len() ==> self@[#[trigger] self.entries@[j].id]
                        == self.entries@[j],
            decreases self.entries.len() - i,
        {
            if self.entries[i].id == id {
                return Some(&self.entries[i]);
            }
            i = i + 1;
        }
        None
    }

    /// Stores a colony under its identifier, replacing any colony already
    /// keyed by it.
    pub fn insert(&mut self, c: Colony)
        requires
            old(self).wf(),
        ensures
            final(self).wf(),
            final(self)@ == old(self)@.insert(c.id, c),
    {
        proof {
            lemma_seq_to_map_props(self.entries@);
            lemma_seq_to_map_unique(self.entries@);
        }
        let ghost old_entries = self.entries@;
        let mut i: usize = 0;
        while i < self.entries.len()
            invariant
                i <= self.entries@.len(),
                self.entries@ == old_entries,
                old_entries == old(self).entries@,
                ids_unique(old_entries),
                forall|j: int| 0 <= j < i ==> old_entries[j].id != c.id,
            decreases self.entries.len() - i,
        {
            if self.entries[i].id == c.id {
                self.entries.set(i, c);
                proof {
                    lemma_replace_at_id(old_entries, i as int, c);
                }
                return ;
            }
            i = i + 1;
        }
        self.entries.push(c);
        proof {
            assert(self.entries@.drop_last() =~= old_entries);
            assert(ids_unique(self.entries@)) by {
                lemma_seq_to_map_props(old_entries);
            }
        }
    }

    /// A well-formed collection's view is a finite mapping that stores each
    /// colony under its own identifier.
    pub proof fn lemma_view_keyed(&self)
        requires
            self.wf(),
        ensures
            map_keyed(self@),
            self@.dom().finite(),
    {
        lemma_seq_to_map_props(self.entries@);
    }

    /// The colonies as a sequence; each is stored under its own identifier,
    /// and no identifier repeats.
    pub fn to_vec(&self) -> (r: Vec<Colony>)
        requires
            self.wf(),
        ensures
            ids_unique(r@),
            seq_to_map(r@) == self@,
            r@.len() == self@.dom().len(),
    {
        proof {
            lemma_seq_to_map_unique(self.entries@);
        }
        let mut out: Vec<Colony> = Vec::new();
        let mut i: usize = 0;
        while i < self.entries.len()
            invariant
                i <= self.entries@.len(),
                out@ == self.entries@.take(i as int),
            decreases self.entries.len() - i,
        {
            out.push(self.entries[i]);
            proof {
                assert(out@ =~= self.entries@.take(i + 1));
            }
            i = i + 1;
        }
        proof {
            assert(out@ =~= self.entries@);
        }
        out
    }
}

/// Replacing the one entry that carries an identifier updates the denoted
/// mapping at that key alone and keeps identifiers unique.
proof fn lemma_replace_at_id(s: Seq<Colony>, i: int, c: Colony)
    requires
        ids_unique(s),
        0 <= i < s.len(),
        s[i].id == c.id,
    ensures
        ids_unique(s.update(i, c)),
        seq_to_map(s.update(i, c)) == seq_to_map(s).insert(c.id, c),
    decreases s.len(),
{
    lemma_seq_to_map_props(s);
    lemma_seq_to_map_unique(s);
    let t = s.update(i, c);
    assert(ids_unique(t)) by {
        assert(forall|j: int| 0 <= j < s.len() ==> t[j].id == s[j].id);
    }
    lemma_seq_to_map_props(t);
    lemma_seq_to_map_unique(t);
    assert(seq_to_map(t) =~= seq_to_map(s).insert(c.id, c)) by {
        assert forall|k: u32| seq_to_map(t).dom().contains(k) implies seq_to_map(s).insert(
            c.id,
            c,
        ).dom().contains(k) by {
            let j = choose|j: int| 0 <= j < t.len() && #[trigger] t[j].id == k;
            if j != i {
                assert(s[j].id == k);
            }
        }
        assert forall|k: u32| seq_to_map(s).insert(c.id, c).dom().contains(k)
            implies seq_to_map(t).dom().contains(k) by {
            if k == c.id {
                assert(t[i].id == k);
            } else {
                let j = choose|j: int| 0 <= j < s.len() && #[trigger] s[j].id == k;
                assert(t[j].id == k);
            }
        }
        assert forall|k: u32| seq_to_map(t).dom().contains(k) implies seq_to_map(t)[k]
            == seq_to_map(s).insert(c.id, c)[k] by {
            let j = choose|j: int| 0 <= j < t.len() && #[trigger] t[j].id == k;
            assert(seq_to_map(t)[t[j].id] == t[j]);
            if j == i {
                assert(seq_to_map(t)[k] == c);
            } else {
                assert(s[j].id == k);
                assert(seq_to_map(s)[k] == s[j]);
                assert(k != c.id);
            }
        }
    }
}

} // verus!
