//! Tag identifiers: the numeric code that names a single metadata field.
use vstd::prelude::*;

verus! {

/// A tag: the numeric identifier of one metadata field (for example, 274
/// names the image orientation). What a code means can depend on the
/// directory it appears in; resolving names against the specification's
/// dictionary is left to that dictionary's keeper.
#[derive(Debug, PartialEq, Eq, Clone, Copy, Hash, Structural)]
pub struct Tag {
    code: u16,
}

impl View for Tag {
    type V = u16;

    closed spec fn view(&self) -> u16 {
        self.code
    }
}

impl Tag {
    /// The tag with the given wire code.
    pub fn new(code: u16) -> (r: Tag)
        ensures
            r@ == code,
    {
        Tag { code }
    }

    /// Return the tag code (e.g. 274 for the image orientation).
    pub fn code(&self) -> (r: u32)
        ensures
            r == self@ as u32,
    {
        self.code as u32
    }
}

} // verus!
