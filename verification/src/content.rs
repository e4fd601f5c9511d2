//! A directory of entries: an ordered group of tag records together with
//! the code of the directory kind it represents.
use vstd::prelude::*;

use crate::ExifError;
use crate::bits::{IFD, ifd_of_code};
use crate::entry::{Entry, EntryView, entry_views, fix_entry_model};

verus! {

/// The mathematical model of a [`Content`].
pub struct ContentView {
    pub ifd_code: u32,
    pub entries: Seq<EntryView>,
}

/// What repairing a directory yields: each entry repaired, in place.
pub open spec fn fix_content_model(c: ContentView) -> ContentView {
    ContentView { entries: Seq::new(c.entries.len(), |i: int| fix_entry_model(c.entries[i])), ..c }
}

/// A directory: an ordered sequence of entries, classified by a directory
/// code. The order of entries is presentation order and carries no further
/// meaning.
#[derive(Debug)]
pub struct Content {
    ifd_code: u32,
    entries: Vec<Entry>,
}

impl View for Content {
    type V = ContentView;

    closed spec fn view(&self) -> ContentView {
        ContentView { ifd_code: self.ifd_code, entries: entry_views(self.entries@) }
    }
}

impl Content {
    /// Build a directory from its kind's code and its entries, in order.
    pub fn new(ifd_code: u32, entries: Vec<Entry>) -> (r: Content)
        ensures
            r@.ifd_code == ifd_code,
            r@.entries == entry_views(entries@),
    {
        Content { ifd_code, entries }
    }

    /// The kind of this directory; an unrecognized directory code is a
    /// decode error, never a guess.
    pub fn ifd(&self) -> (r: Result<IFD, ExifError>)
        ensures
            r == ifd_of_code(self@.ifd_code),
    {
        IFD::from_code(self.ifd_code)
    }

    /// The number of entries in the directory.
    pub fn len(&self) -> (r: usize)
        ensures
            r == self@.entries.len(),
    {
        self.entries.len()
    }

    /// The entries of the directory, in order.
    pub fn entries(&self) -> (r: &Vec<Entry>)
        ensures
            r@.len() == self@.entries.len(),
            forall|i: int| 0 <= i < r@.len() ==> #[trigger] r@[i]@ == self@.entries[i],
    {
        &self.entries
    }

    /// Repair every entry of the directory to comply with the
    /// specification; see [`Entry::fix`].
    pub fn fix(&mut self)
        ensures
            final(self)@ == fix_content_model(old(self)@),
    {
        let ghost orig = self@.entries;
        let mut fixed: Vec<Entry> = Vec::new();
        while self.entries.len() > 0
            invariant
                self@.ifd_code == old(self)@.ifd_code,
                fixed@.len() + self.entries@.len() == orig.len(),
                forall|i: int|
                    0 <= i < fixed@.len() ==> #[trigger] fixed@[i]@ == fix_entry_model(orig[i]),
                forall|j: int|
                    0 <= j < self.entries@.len() ==> #[trigger] self.entries@[j]@ == orig[fixed@.len()
                        + j],
            decreases self.entries@.len(),
        {
            let ghost k = fixed@.len() as int;
            let ghost before = self.entries@;
            let mut e = self.entries.remove(0);
            proof {
                assert(e@ == orig[k]);
                assert forall|j: int|
                    0 <= j < self.entries@.len() implies #[trigger] self.entries@[j]@ == orig[k + 1
                    + j] by {
                    assert(self.entries@[j] == before[j + 1]);
                }
            }
            e.fix();
            fixed.push(e);
        }
        self.entries = fixed;
        proof {
            let target = fix_content_model(old(self)@);
            assert forall|i: int| 0 <= i < self@.entries.len() implies self@.entries[i]
                == target.entries[i] by {
                assert(self@.entries[i] == self.entries@[i]@);
            }
            assert(self@.entries =~= target.entries);
            assert(self@.ifd_code == target.ifd_code);
        }
    }
}

} // verus!
