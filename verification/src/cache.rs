//! The rows of a transcript's entries, kept until they change.

use crate::entry::{entry_block, EntryKind, Layout, Stuff, TranscriptEntry};
use std::collections::HashMap;
use vstd::prelude::*;

verus! {

/// The rows of an entry, and what they were made for.
#[derive(Debug)]
pub struct CachedEntry {
    pub revision: u64,
    pub width: u16,
    pub expanded: bool,
    pub layout: Layout,
}

/// Rows by entry, which entries the user folded or unfolded, and whether all are.
#[derive(Debug)]
pub struct LayoutCache {
    pub entries: HashMap<u64, CachedEntry>,
    pub expansion_overrides: HashMap<u64, bool>,
    pub expand_all: Option<bool>,
}

/// A cache as mathematical values.
pub struct Kept {
    pub entries: Map<u64, CachedEntry>,
    pub overrides: Map<u64, bool>,
    pub expand_all: Option<bool>,
}

impl View for LayoutCache {
    type V = Kept;

    open spec fn view(&self) -> Kept {
        Kept {
            entries: self.entries@,
            overrides: self.expansion_overrides@,
            expand_all: self.expand_all,
        }
    }
}

/// Rows were made of what an entry shows, for their width and folding.
pub open spec fn is_made_of(cached: CachedEntry, kind: EntryKind) -> bool {
    exists|stuff: Stuff|
        cached.layout@ == #[trigger] entry_block(
            kind,
            cached.width as int,
            cached.expanded,
            stuff,
        )
}

impl Kept {
    /// Nothing is kept.
    pub open spec fn nothing() -> Kept {
        Kept { entries: Map::empty(), overrides: Map::empty(), expand_all: None }
    }

    /// An entry is unfolded: as the user said of it, or of all entries, or by default.
    pub open spec fn unfolds(self, entry: TranscriptEntry) -> bool {
        if self.overrides.contains_key(entry.id) {
            self.overrides[entry.id]
        } else {
            match self.expand_all {
                Some(expanded) => expanded,
                None => entry.unfolded_by_default(),
            }
        }
    }

    /// The rows of an entry are there, for its revision, its folding and that width.
    pub open spec fn fresh(self, entry: TranscriptEntry, width: u16) -> bool {
        &&& self.entries.contains_key(entry.id)
        &&& self.entries[entry.id].revision == entry.revision
        &&& self.entries[entry.id].width == width
        &&& self.entries[entry.id].expanded == self.unfolds(entry)
    }

    /// Rows that are kept for the revision of an entry are those of the entry.
    pub open spec fn true_to(self, entries: Seq<TranscriptEntry>) -> bool {
        forall|i: int|
            0 <= i < entries.len() && self.has_revision(#[trigger] entries[i]) ==> is_made_of(
                self.entries[entries[i].id],
                entries[i].kind,
            )
    }

    /// Rows are kept for the revision of an entry.
    pub open spec fn has_revision(self, entry: TranscriptEntry) -> bool {
        self.entries.contains_key(entry.id) && self.entries[entry.id].revision == entry.revision
    }

    /// Entries follow others: those for whose revision rows are kept were there, and show what they
    /// showed.
    pub open spec fn follows(
        self,
        before: Seq<TranscriptEntry>,
        after: Seq<TranscriptEntry>,
    ) -> bool {
        forall|j: int|
            0 <= j < after.len() && self.has_revision(#[trigger] after[j]) ==> exists|i: int|
                0 <= i < before.len() && (#[trigger] before[i]).id == after[j].id
                    && before[i].revision == after[j].revision && before[i].kind == after[j].kind
    }

    /// With an entry folded or unfolded.
    pub open spec fn toggled(self, entry: TranscriptEntry) -> Kept {
        Kept {
            entries: self.entries.remove(entry.id),
            overrides: self.overrides.insert(entry.id, !self.unfolds(entry)),
            expand_all: self.expand_all,
        }
    }

    /// With all entries folded or unfolded.
    pub open spec fn all_toggled(self) -> Kept {
        Kept {
            entries: Map::empty(),
            overrides: Map::empty(),
            expand_all: Some(self.expand_all != Some(true)),
        }
    }
}

impl LayoutCache {
    /// Nothing is kept.
    pub fn new() -> (cache: Self)
        ensures
            cache@ == Kept::nothing(),
    {
        LayoutCache {
            entries: HashMap::new(),
            expansion_overrides: HashMap::new(),
            expand_all: None,
        }
    }

    /// Whether an entry is unfolded.
    pub fn is_expanded(&self, entry: &TranscriptEntry) -> (yes: bool)
        ensures
            yes == self@.unfolds(*entry),
    {
        broadcast use vstd::std_specs::hash::group_hash_axioms;

        match self.expansion_overrides.get(&entry.id) {
            Some(expanded) => *expanded,
            None => match self.expand_all {
                Some(expanded) => expanded,
                None => entry.expanded_by_default(),
            },
        }
    }

    /// Whether the rows of an entry are there.
    pub fn is_fresh(&self, entry: &TranscriptEntry, width: u16) -> (yes: bool)
        ensures
            yes == self@.fresh(*entry, width),
    {
        broadcast use vstd::std_specs::hash::group_hash_axioms;

        match self.entries.get(&entry.id) {
            Some(cached) => cached.revision == entry.revision && cached.width == width
                && cached.expanded == self.is_expanded(entry),
            None => false,
        }
    }

    /// Keeps the rows of an entry.
    pub fn layout(&mut self, entry: &TranscriptEntry, width: u16, layout: Layout)
        ensures
            final(self)@ == (Kept {
                entries: old(self)@.entries.insert(
                    entry.id,
                    CachedEntry {
                        revision: entry.revision,
                        width,
                        expanded: old(self)@.unfolds(*entry),
                        layout,
                    },
                ),
                ..old(self)@
            }),
            final(self)@.fresh(*entry, width),
    {
        broadcast use vstd::std_specs::hash::group_hash_axioms;

        let expanded: bool = self.is_expanded(entry);
        let cached = CachedEntry { revision: entry.revision, width, expanded, layout };
        self.entries.insert(entry.id, cached);
    }

    /// Folds or unfolds an entry.
    pub fn toggle(&mut self, entry: &TranscriptEntry)
        ensures
            final(self)@ == old(self)@.toggled(*entry),
    {
        broadcast use vstd::std_specs::hash::group_hash_axioms;

        let expanded: bool = self.is_expanded(entry);
        self.expansion_overrides.insert(entry.id, !expanded);
        self.entries.remove(&entry.id);
    }

    /// Folds or unfolds all entries.
    pub fn toggle_all(&mut self)
        ensures
            final(self)@ == old(self)@.all_toggled(),
    {
        let unfolded: bool = match self.expand_all {
            Some(expanded) => expanded,
            None => false,
        };
        self.expand_all = Some(!unfolded);
        self.expansion_overrides.clear();
        self.entries.clear();
    }

    /// The rows of an entry.
    pub fn rows(&self, id: u64) -> (layout: Option<&Layout>)
        ensures
            layout is Some == self@.entries.contains_key(id),
            layout matches Some(found) ==> *found == self@.entries[id].layout,
    {
        broadcast use vstd::std_specs::hash::group_hash_axioms;

        match self.entries.get(&id) {
            Some(cached) => Some(&cached.layout),
            None => None,
        }
    }
}

/// An entry that is folded and unfolded again is as it was.
pub proof fn law_toggling_twice_restores(kept: Kept, entry: TranscriptEntry)
    ensures
        kept.toggled(entry).unfolds(entry) == !kept.unfolds(entry),
        kept.toggled(entry).toggled(entry).unfolds(entry) == kept.unfolds(entry),
{
}

/// Unfolding all entries unfolds every one of them, whatever the user said of it before.
pub proof fn law_all_means_all(kept: Kept, entry: TranscriptEntry)
    ensures
        kept.all_toggled().unfolds(entry) == (kept.expand_all != Some(true)),
{
}

} // verus!
