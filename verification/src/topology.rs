//! The adjacency that a `topology` message announces: for each node, its
//! neighbours.

use vstd::prelude::*;

verus! {

/// A list of names as a sequence of character sequences.
pub open spec fn names(v: Seq<String>) -> Seq<Seq<char>> {
    Seq::new(v.len(), |i: int| v[i]@)
}

/// The mapping that a list of entries stands for. Where a node occurs more
/// than once, its last entry counts.
pub open spec fn adjacency(entries: Seq<(String, Vec<String>)>) -> Map<Seq<char>, Seq<Seq<char>>>
    decreases entries.len(),
{
    if entries.len() == 0 {
        Map::empty()
    } else {
        adjacency(entries.drop_last()).insert(entries.last().0@, names(entries.last().1@))
    }
}

/// The neighbours that a list of entries gives for `node`: those of the last
/// entry that names it.
pub open spec fn lookup(entries: Seq<(String, Vec<String>)>, node: Seq<char>) -> Option<
    Seq<Seq<char>>,
>
    decreases entries.len(),
{
    if entries.len() == 0 {
        None
    } else if entries.last().0@ == node {
        Some(names(entries.last().1@))
    } else {
        lookup(entries.drop_last(), node)
    }
}

/// The mapping holds for each node what `lookup` finds for it.
pub proof fn lemma_adjacency_lookup(entries: Seq<(String, Vec<String>)>, node: Seq<char>)
    ensures
        adjacency(entries).contains_key(node) <==> lookup(entries, node) is Some,
        lookup(entries, node) matches Some(found) ==> adjacency(entries)[node] == found,
    decreases entries.len(),
{
    if entries.len() > 0 {
        lemma_adjacency_lookup(entries.drop_last(), node);
    }
}

/// An entry whose node no later entry names is the one that `lookup` finds.
pub proof fn lemma_lookup_finds(entries: Seq<(String, Vec<String>)>, i: int)
    requires
        0 <= i < entries.len(),
        forall|j: int| i < j < entries.len() ==> (#[trigger] entries[j]).0@ != entries[i].0@,
    ensures
        lookup(entries, entries[i].0@) == Some(names(entries[i].1@)),
    decreases entries.len(),
{
    if i < entries.len() - 1 {
        lemma_lookup_finds(entries.drop_last(), i);
    }
}

/// Where no entry names a node, `lookup` finds nothing for it.
pub proof fn lemma_lookup_misses(entries: Seq<(String, Vec<String>)>, node: Seq<char>)
    requires
        forall|j: int| 0 <= j < entries.len() ==> (#[trigger] entries[j]).0@ != node,
    ensures
        lookup(entries, node) is None,
    decreases entries.len(),
{
    if entries.len() > 0 {
        lemma_lookup_misses(entries.drop_last(), node);
    }
}

/// To overwrite the last entry for a node is to set what the mapping gives
/// for that node.
pub proof fn lemma_adjacency_update(
    entries: Seq<(String, Vec<String>)>,
    i: int,
    entry: (String, Vec<String>),
)
    requires
        0 <= i < entries.len(),
        entries[i].0@ == entry.0@,
        forall|j: int| i < j < entries.len() ==> (#[trigger] entries[j]).0@ != entry.0@,
    ensures
        adjacency(entries.update(i, entry)) == adjacency(entries).insert(
            entry.0@,
            names(entry.1@),
        ),
    decreases entries.len(),
{
    let updated = entries.update(i, entry);
    if i == entries.len() - 1 {
        assert(updated.drop_last() == entries.drop_last());
    } else {
        assert(updated.drop_last() == entries.drop_last().update(i, entry));
        lemma_adjacency_update(entries.drop_last(), i, entry);
    }
}

/// An adjacency list. A later entry for a node overrides an earlier one.
#[derive(Debug, Clone, PartialEq, Eq)]
pub struct Topology {
    pub entries: Vec<(String, Vec<String>)>,
}

impl View for Topology {
    type V = Map<Seq<char>, Seq<Seq<char>>>;

    open spec fn view(&self) -> Self::V {
        adjacency(self.entries@)
    }
}

impl Topology {
    /// The adjacency of no node.
    pub fn new() -> (t: Topology)
        ensures
            t@ == Map::<Seq<char>, Seq<Seq<char>>>::empty(),
            t.entries@.len() == 0,
    {
        Topology { entries: Vec::new() }
    }

    /// Records `neighbours` as the neighbours of `node`, in place of any that
    /// were recorded for it before: the last entry for `node` is overwritten
    /// where there is one, and a new entry is added at the end otherwise.
    pub fn insert(&mut self, node: String, neighbours: Vec<String>)
        ensures
            final(self)@ == old(self)@.insert(node@, names(neighbours@)),
            old(self)@.contains_key(node@) ==> final(self).entries@.len() == old(
                self,
            ).entries@.len(),
            !old(self)@.contains_key(node@) ==> final(self).entries@ == old(self).entries@.push(
                (node, neighbours),
            ),
    {
        let mut i: usize = self.entries.len();
        while i > 0
            invariant
                *self == *old(self),
                i <= self.entries@.len(),
                forall|j: int|
                    i <= j < self.entries@.len() ==> (#[trigger] self.entries@[j]).0@ != node@,
            decreases i,
        {
            i = i - 1;
            if self.entries[i].0 == node {
                proof {
                    lemma_adjacency_lookup(self.entries@, node@);
                    lemma_lookup_finds(self.entries@, i as int);
                    lemma_adjacency_update(self.entries@, i as int, (node, neighbours));
                }
                self.entries.set(i, (node, neighbours));
                return ;
            }
        }
        proof {
            lemma_adjacency_lookup(self.entries@, node@);
            lemma_lookup_misses(self.entries@, node@);
        }
        let ghost before = self.entries@;
        self.entries.push((node, neighbours));
        assert(self.entries@.drop_last() == before);
    }

    /// The neighbours recorded for `node`, if any are.
    pub fn get(&self, node: &String) -> (r: Option<&Vec<String>>)
        ensures
            r is Some <==> self@.contains_key(node@),
            r matches Some(v) ==> names(v@) == self@[node@],
    {
        proof {
            assert(self.entries@.take(self.entries@.len() as int) == self.entries@);
        }
        let mut i: usize = self.entries.len();
        while i > 0
            invariant
                i <= self.entries@.len(),
                lookup(self.entries@, node@) == lookup(self.entries@.take(i as int), node@),
            decreases i,
        {
            proof {
                assert(self.entries@.take(i as int).drop_last() == self.entries@.take(i - 1));
            }
            i = i - 1;
            if self.entries[i].0 == *node {
                proof {
                    lemma_adjacency_lookup(self.entries@, node@);
                }
                return Some(&self.entries[i].1);
            }
        }
        proof {
            lemma_adjacency_lookup(self.entries@, node@);
        }
        None
    }
}

} // verus!
