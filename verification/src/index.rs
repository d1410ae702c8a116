//! The entries of an open archive, found by name.

use crate::table::{entry_models, EntryModel, PAKFile};
use crate::text::same_text;
use vstd::prelude::*;

verus! {

/// The entries of an archive in the order of its table. It is built once and
/// never changed afterwards.
pub struct ArchiveIndex {
    entries: Vec<PAKFile>,
}

/// The first of `entries` that has the name `name`.
pub open spec fn find_entry(entries: Seq<EntryModel>, name: Seq<char>) -> Option<EntryModel>
    decreases entries.len(),
{
    if entries.len() == 0 {
        None
    } else if entries[0].name == name {
        Some(entries[0])
    } else {
        find_entry(entries.skip(1), name)
    }
}

/// The names of `entries`, in their order.
pub open spec fn names_of(entries: Seq<EntryModel>) -> Seq<Seq<char>> {
    Seq::new(entries.len(), |i: int| entries[i].name)
}

/// The texts of a run of strings.
pub open spec fn texts(names: Seq<String>) -> Seq<Seq<char>> {
    Seq::new(names.len(), |i: int| names[i]@)
}

impl View for ArchiveIndex {
    type V = Seq<EntryModel>;

    closed spec fn view(&self) -> Seq<EntryModel> {
        entry_models(self.entries@)
    }
}

impl ArchiveIndex {
    /// An index of `entries`, in their order.
    pub fn build(entries: Vec<PAKFile>) -> (index: Self)
        ensures
            index@ == entry_models(entries@),
    {
        ArchiveIndex { entries }
    }

    /// The number of entries.
    pub fn len(&self) -> (n: usize)
        ensures
            n == self@.len(),
    {
        self.entries.len()
    }

    /// The entries, in the order of the table.
    pub fn entries(&self) -> (list: &[PAKFile])
        ensures
            entry_models(list@) == self@,
    {
        self.entries.as_slice()
    }

    /// The entry of the name `name`: where several have it, the first.
    pub fn lookup(&self, name: &str) -> (r: Option<&PAKFile>)
        ensures
            match r {
                Some(entry) => find_entry(self@, name@) == Some(entry@),
                None => find_entry(self@, name@) is None,
            },
    {
        let mut i: usize = 0;
        assert(self@.skip(0) == self@);
        while i < self.entries.len()
            invariant
                i <= self.entries@.len(),
                find_entry(self@, name@) == find_entry(self@.skip(i as int), name@),
            decreases self.entries@.len() - i,
        {
            if same_text(self.entries[i].name.as_str(), name) {
                return Some(&self.entries[i]);
            }
            assert(self@.skip(i as int).skip(1) == self@.skip(i + 1));
            i = i + 1;
        }
        None
    }

    /// The names of all entries, in the order of the table.
    pub fn list(&self) -> (names: Vec<String>)
        ensures
            texts(names@) == names_of(self@),
    {
        let mut names: Vec<String> = Vec::new();
        let mut i: usize = 0;
        while i < self.entries.len()
            invariant
                i <= self.entries@.len(),
                names@.len() == i,
                forall|k: int| 0 <= k < i ==> (#[trigger] names@[k])@ == self@[k].name,
            decreases self.entries@.len() - i,
        {
            names.push(self.entries[i].name.clone());
            i = i + 1;
        }
        assert(texts(names@) =~= names_of(self@));
        names
    }
}

/// An entry is found under a name exactly where some entry has that name, and
/// the one found has it.
pub proof fn lemma_find_entry(entries: Seq<EntryModel>, name: Seq<char>)
    ensures
        find_entry(entries, name) is Some <==> exists|i: int|
            0 <= i < entries.len() && (#[trigger] entries[i]).name == name,
        find_entry(entries, name) is Some ==> find_entry(entries, name)->Some_0.name == name
            && entries.contains(find_entry(entries, name)->Some_0),
    decreases entries.len(),
{
    if entries.len() > 0 {
        let rest = entries.skip(1);
        lemma_find_entry(rest, name);
        if entries[0].name != name {
            if find_entry(rest, name) is Some {
                let i = choose|i: int| 0 <= i < rest.len() && (#[trigger] rest[i]).name == name;
                assert(entries[i + 1].name == name);
                let k = choose|k: int| 0 <= k < rest.len() && rest[k] == find_entry(rest, name)->Some_0;
                assert(entries[k + 1] == find_entry(rest, name)->Some_0);
            } else {
                assert forall|i: int| 0 <= i < entries.len() implies (#[trigger] entries[i]).name
                    != name by {
                    if i > 0 {
                        assert(rest[i - 1].name != name);
                    }
                }
            }
        } else {
            assert(entries[0] == find_entry(entries, name)->Some_0);
        }
    }
}

} // verus!
