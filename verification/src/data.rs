//! The dataset: every directory parsed from one metadata segment, the
//! byte order they share, the encoding classification, and the processing
//! options the caller has switched on.
use vstd::prelude::*;

use crate::bits::{ByteOrder, DataEncoding, DataOption};
use crate::content::{Content, ContentView, fix_content_model};

verus! {

/// The mathematical model of a [`Data`].
pub struct DataView {
    pub byte_order: ByteOrder,
    pub encoding: DataEncoding,
    pub options: Set<DataOption>,
    pub contents: Seq<ContentView>,
}

/// What repairing a dataset yields: each directory repaired, in place.
pub open spec fn fix_data_model(d: DataView) -> DataView {
    DataView {
        contents: Seq::new(d.contents.len(), |i: int| fix_content_model(d.contents[i])),
        ..d
    }
}

/// The models of a sequence of directories.
pub open spec fn content_views(s: Seq<Content>) -> Seq<ContentView> {
    Seq::new(s.len(), |i: int| s[i]@)
}

/// A dataset result, seen at the level of the mathematical model.
pub open spec fn data_result_view(r: Result<Data, crate::ExifError>) -> Result<
    DataView,
    crate::ExifError,
> {
    match r {
        Ok(d) => Ok(d@),
        Err(e) => Err(e),
    }
}

/// Container for all the metadata found in one image: an ordered sequence
/// of directories under a single byte order, plus an encoding classifier
/// and a set of processing options. The byte order applies uniformly to
/// every entry of every directory.
#[derive(Debug)]
pub struct Data {
    byte_order: ByteOrder,
    encoding: DataEncoding,
    ignore_unknown_tags: bool,
    follow_specification: bool,
    dont_change_maker_note: bool,
    contents: Vec<Content>,
}

impl View for Data {
    type V = DataView;

    closed spec fn view(&self) -> DataView {
        DataView {
            byte_order: self.byte_order,
            encoding: self.encoding,
            options: Set::new(
                |o: DataOption|
                    match o {
                        DataOption::IgnoreUnknownTags => self.ignore_unknown_tags,
                        DataOption::FollowSpecification => self.follow_specification,
                        DataOption::DontChangeMakerNote => self.dont_change_maker_note,
                    },
            ),
            contents: content_views(self.contents@),
        }
    }
}

impl Data {
    /// Build a dataset from its byte order, encoding and directories; no
    /// processing option is set.
    pub fn new(byte_order: ByteOrder, encoding: DataEncoding, contents: Vec<Content>) -> (r: Data)
        ensures
            r@.byte_order == byte_order,
            r@.encoding == encoding,
            r@.options == Set::<DataOption>::empty(),
            r@.contents == content_views(contents@),
    {
        let r = Data {
            byte_order,
            encoding,
            ignore_unknown_tags: false,
            follow_specification: false,
            dont_change_maker_note: false,
            contents,
        };
        proof {
            assert(r@.options =~= Set::<DataOption>::empty());
        }
        r
    }

    /// The byte order in use by this dataset.
    pub fn byte_order(&self) -> (r: ByteOrder)
        ensures
            r == self@.byte_order,
    {
        self.byte_order
    }

    /// Set the byte order recorded for this dataset. The directories and
    /// their raw bytes are left untouched: only later decoding is
    /// affected.
    pub fn set_byte_order(&mut self, byte_order: ByteOrder)
        ensures
            final(self)@ == (DataView { byte_order, ..old(self)@ }),
    {
        self.byte_order = byte_order;
    }

    /// The encoding classification of this dataset.
    pub fn encoding(&self) -> (r: DataEncoding)
        ensures
            r == self@.encoding,
    {
        self.encoding
    }

    /// Set the encoding classification; nothing else changes.
    pub fn set_encoding(&mut self, encoding: DataEncoding)
        ensures
            final(self)@ == (DataView { encoding, ..old(self)@ }),
    {
        self.encoding = encoding;
    }

    /// Switch a processing option on; the other options and everything
    /// else stay as they were.
    pub fn set_option(&mut self, option: DataOption)
        ensures
            final(self)@ == (DataView {
                options: old(self)@.options.insert(option),
                ..old(self)@
            }),
    {
        match option {
            DataOption::IgnoreUnknownTags => self.ignore_unknown_tags = true,
            DataOption::FollowSpecification => self.follow_specification = true,
            DataOption::DontChangeMakerNote => self.dont_change_maker_note = true,
        }
        proof {
            assert(self@.options =~= old(self)@.options.insert(option));
        }
    }

    /// Switch a processing option off; the other options and everything
    /// else stay as they were.
    pub fn unset_option(&mut self, option: DataOption)
        ensures
            final(self)@ == (DataView {
                options: old(self)@.options.remove(option),
                ..old(self)@
            }),
    {
        match option {
            DataOption::IgnoreUnknownTags => self.ignore_unknown_tags = false,
            DataOption::FollowSpecification => self.follow_specification = false,
            DataOption::DontChangeMakerNote => self.dont_change_maker_note = false,
        }
        proof {
            assert(self@.options =~= old(self)@.options.remove(option));
        }
    }

    /// Whether a processing option is currently switched on.
    pub fn has_option(&self, option: DataOption) -> (r: bool)
        ensures
            r == self@.options.contains(option),
    {
        match option {
            DataOption::IgnoreUnknownTags => self.ignore_unknown_tags,
            DataOption::FollowSpecification => self.follow_specification,
            DataOption::DontChangeMakerNote => self.dont_change_maker_note,
        }
    }

    /// The directories of the dataset, in order: a finite sequence whose
    /// length is known up front.
    pub fn contents(&self) -> (r: &Vec<Content>)
        ensures
            r@.len() == self@.contents.len(),
            forall|i: int| 0 <= i < r@.len() ==> #[trigger] r@[i]@ == self@.contents[i],
    {
        &self.contents
    }

    /// Repair the dataset to comply with the specification: every entry
    /// of every directory is repaired as [`Entry::fix`](crate::entry::Entry::fix)
    /// describes, and nothing else changes — the repair is never
    /// destructive beyond that.
    pub fn fix(&mut self)
        ensures
            final(self)@ == fix_data_model(old(self)@),
    {
        let ghost orig = self@.contents;
        let mut fixed: Vec<Content> = Vec::new();
        while self.contents.len() > 0
            invariant
                self.byte_order == old(self).byte_order,
                self.encoding == old(self).encoding,
                self.ignore_unknown_tags == old(self).ignore_unknown_tags,
                self.follow_specification == old(self).follow_specification,
                self.dont_change_maker_note == old(self).dont_change_maker_note,
                fixed@.len() + self.contents@.len() == orig.len(),
                forall|i: int|
                    0 <= i < fixed@.len() ==> #[trigger] fixed@[i]@ == fix_content_model(orig[i]),
                forall|j: int|
                    0 <= j < self.contents@.len() ==> #[trigger] self.contents@[j]@
                        == orig[fixed@.len() + j],
            decreases self.contents@.len(),
        {
            let ghost k = fixed@.len() as int;
            let ghost before = self.contents@;
            let mut c = self.contents.remove(0);
            proof {
                assert(c@ == orig[k]);
                assert forall|j: int|
                    0 <= j < self.contents@.len() implies #[trigger] self.contents@[j]@ == orig[k
                    + 1 + j] by {
                    assert(self.contents@[j] == before[j + 1]);
                }
            }
            c.fix();
            fixed.push(c);
        }
        self.contents = fixed;
        proof {
            let target = fix_data_model(old(self)@);
            assert forall|i: int| 0 <= i < self@.contents.len() implies self@.contents[i]
                == target.contents[i] by {
                assert(self@.contents[i] == self.contents@[i]@);
            }
            assert(self@.contents =~= target.contents);
            assert(self@.options =~= target.options);
        }
    }
}

} // verus!
