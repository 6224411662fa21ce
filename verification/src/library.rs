//! The song library's metadata ledger: which files were copied into the
//! library, under which stored names. Reading and writing the ledger file
//! belongs to the caller; this module holds the ledger itself.

use vstd::prelude::*;

verus! {

/// Model of a ledger entry.
pub struct LibraryEntryModel {
    pub original_path: Seq<char>,
    pub stored_filename: Seq<char>,
    pub title: Seq<char>,
    pub added_date: Seq<char>,
}

/// One song copied into the library: where it came from, the unique name it
/// is stored under, its display title and the date it was added.
#[derive(Debug, Clone, PartialEq, Eq)]
pub struct LibraryEntry {
    pub original_path: String,
    pub stored_filename: String,
    pub title: String,
    pub added_date: String,
}

impl View for LibraryEntry {
    type V = LibraryEntryModel;

    open spec fn view(&self) -> LibraryEntryModel {
        LibraryEntryModel {
            original_path: self.original_path@,
            stored_filename: self.stored_filename@,
            title: self.title@,
            added_date: self.added_date@,
        }
    }
}

impl DeepView for LibraryEntry {
    type V = LibraryEntryModel;

    open spec fn deep_view(&self) -> LibraryEntryModel {
        self.view()
    }
}

/// The position of the first entry stored under `name`, if any.
pub open spec fn find_entry(s: Seq<LibraryEntryModel>, name: Seq<char>) -> Option<int>
    decreases s.len(),
{
    if s.len() == 0 {
        None
    } else if s[0].stored_filename == name {
        Some(0)
    } else {
        match find_entry(s.drop_first(), name) {
            Some(j) => Some(j + 1),
            None => None,
        }
    }
}

proof fn lemma_find_entry_eq(s: Seq<LibraryEntryModel>, name: Seq<char>, i: int)
    requires
        0 <= i <= s.len(),
        forall|j: int| 0 <= j < i ==> s[j].stored_filename != name,
        i == s.len() || s[i].stored_filename == name,
    ensures
        find_entry(s, name) == if i == s.len() {
            None::<int>
        } else {
            Some(i)
        },
    decreases s.len(),
{
    if s.len() > 0 && i > 0 {
        assert(forall|j: int|
            0 <= j < i - 1 ==> s.drop_first()[j].stored_filename != name);
        if i < s.len() {
            assert(s.drop_first()[i - 1] == s[i]);
        }
        lemma_find_entry_eq(s.drop_first(), name, i - 1);
    }
}

/// The persistent ledger of the library.
#[derive(Debug, Clone, PartialEq, Eq)]
pub struct LibraryMetadata {
    pub entries: Vec<LibraryEntry>,
}

impl LibraryMetadata {
    /// An empty ledger.
    pub fn new() -> (r: LibraryMetadata)
        ensures
            r.entries@.len() == 0,
    {
        LibraryMetadata { entries: Vec::new() }
    }

    /// Records a newly stored song at the end of the ledger.
    pub fn add_entry(&mut self, entry: LibraryEntry)
        ensures
            final(self).entries@ == old(self).entries@.push(entry),
    {
        self.entries.push(entry);
    }

    /// Removes and returns the first entry stored under `stored_filename`,
    /// leaving the ledger unchanged when no entry carries that name.
    pub fn remove_entry(&mut self, stored_filename: &str) -> (r: Option<LibraryEntry>)
        ensures
            match find_entry(old(self).entries.deep_view(), stored_filename@) {
                Some(i) => r is Some && r->0 == old(self).entries@[i] && final(self).entries@
                    == old(self).entries@.remove(i),
                None => r is None && final(self).entries@ == old(self).entries@,
            },
    {
        let ghost before = self.entries.deep_view();
        let key: String = stored_filename.to_owned();
        let n = self.entries.len();
        let mut i: usize = 0;
        while i < n && !(self.entries[i].stored_filename == key)
            invariant
                i <= n,
                n == self.entries@.len(),
                before == self.entries.deep_view(),
                key@ == stored_filename@,
                forall|j: int| 0 <= j < i ==> before[j].stored_filename != stored_filename@,
            decreases n - i,
        {
            i = i + 1;
        }
        proof {
            lemma_find_entry_eq(before, stored_filename@, i as int);
        }
        if i < n {
            Some(self.entries.remove(i))
        } else {
            None
        }
    }
}

/// The path of the ledger file inside the library directory.
pub fn get_metadata_file(library_dir: &str) -> (r: String)
    ensures
        r@ == library_dir@ + "/library.json"@,
{
    let mut r = library_dir.to_owned();
    r.append("/library.json");
    r
}

} // verus!
