//! A single tag record: its tag code, declared format, declared component
//! count and raw bytes, with the structural invariant that the byte length
//! always equals the element width times the component count.
use vstd::prelude::*;

use crate::ExifError;
use crate::bits::{ByteOrder, DataType, size_of_data_type};
use crate::tag::Tag;
use crate::value::{Value, extract_model, first_nul, lemma_first_nul_at, value_result_view};

verus! {

/// The mathematical model of an [`Entry`].
pub struct EntryView {
    pub tag: u16,
    pub format: DataType,
    pub components: nat,
    pub data: Seq<u8>,
}

/// A well-formed entry holds exactly `element size * component count`
/// raw bytes: nothing can be decoded out of bounds from it.
pub open spec fn entry_wf(e: EntryView) -> bool {
    e.data.len() == size_of_data_type(e.format) * e.components
}

/// The models of a sequence of entries.
pub open spec fn entry_views(s: Seq<Entry>) -> Seq<EntryView> {
    Seq::new(s.len(), |i: int| s[i]@)
}

/// What repairing one entry yields: a text entry with no terminating zero
/// byte gains one (and counts it as a component); every other entry is
/// left exactly as it was.
pub open spec fn fix_entry_model(e: EntryView) -> EntryView {
    if e.format == DataType::Text && first_nul(e.data) == e.data.len() && e.data.len()
        < usize::MAX {
        EntryView { components: e.components + 1, data: e.data + seq![0u8], ..e }
    } else {
        e
    }
}

/// Data found in a single tag record.
///
/// An entry is validated on construction: its raw byte length always
/// equals its format's element width times its component count.
#[derive(Debug)]
pub struct Entry {
    tag: u16,
    format: DataType,
    components: usize,
    data: Vec<u8>,
}

impl View for Entry {
    type V = EntryView;

    closed spec fn view(&self) -> EntryView {
        EntryView {
            tag: self.tag,
            format: self.format,
            components: self.components as nat,
            data: self.data@,
        }
    }
}

impl Entry {
    /// The structural invariant: held by every entry this library hands
    /// out, checked once at construction.
    #[verifier::type_invariant]
    pub open spec fn wf(&self) -> bool {
        entry_wf(self@)
    }

    /// Build an entry from its parts, validating that the raw byte length
    /// matches the declared format and component count; a mismatch is a
    /// [`ExifError::SizeMismatch`].
    pub fn new(tag: u16, data_type: DataType, components: usize, raw_data: Vec<u8>) -> (r: Result<
        Entry,
        ExifError,
    >)
        ensures
            match r {
                Ok(e) => {
                    &&& raw_data@.len() == size_of_data_type(data_type) * components
                    &&& e@ == (EntryView {
                        tag,
                        format: data_type,
                        components: components as nat,
                        data: raw_data@,
                    })
                },
                Err(e) => {
                    &&& raw_data@.len() != size_of_data_type(data_type) * components
                    &&& e == ExifError::SizeMismatch
                },
            },
    {
        let size = data_type.size();
        if components > raw_data.len() / size {
            proof {
                if raw_data@.len() == size_of_data_type(data_type) * components {
                    vstd::arithmetic::div_mod::lemma_fundamental_div_mod_converse_div(
                        raw_data@.len() as int,
                        size as int,
                        components as int,
                        0,
                    );
                }
            }
            return Err(ExifError::SizeMismatch);
        }
        proof {
            vstd::arithmetic::div_mod::lemma_fundamental_div_mod(
                raw_data@.len() as int,
                size as int,
            );
            vstd::arithmetic::mul::lemma_mul_inequality(
                components as int,
                raw_data@.len() as int / size as int,
                size as int,
            );
        }
        if raw_data.len() != size * components {
            return Err(ExifError::SizeMismatch);
        }
        Ok(Entry { tag, format: data_type, components, data: raw_data })
    }

    /// The tag that names this entry.
    pub fn tag(&self) -> (r: Tag)
        ensures
            r@ == self@.tag,
    {
        Tag::new(self.tag)
    }

    /// The declared format of the entry's elements.
    pub fn data_type(&self) -> (r: DataType)
        ensures
            r == self@.format,
    {
        self.format
    }

    /// The declared number of elements in the entry.
    pub fn components(&self) -> (r: usize)
        ensures
            r == self@.components,
    {
        self.components
    }

    /// The raw bytes of the entry's value: a read-only view, never copied.
    pub fn raw_data(&self) -> (r: &[u8])
        ensures
            r@ == self@.data,
    {
        self.data.as_slice()
    }

    /// Decode the entry's raw bytes under the given byte order.
    ///
    /// Decoding reads nothing but the entry and is free of side effects:
    /// it may be repeated at will. Because the entry's length invariant
    /// holds by construction, the only possible failure is an
    /// [`ExifError::Encoding`] for text that is not valid UTF-8.
    pub fn value(&self, byte_order: ByteOrder) -> (r: Result<Value, ExifError>)
        ensures
            value_result_view(r) == extract_model(
                self@.data,
                self@.format,
                self@.components,
                byte_order,
            ),
            r matches Err(e) ==> e == ExifError::Encoding,
    {
        proof {
            use_type_invariant(self);
        }
        Value::extract(self.data.as_slice(), self.format, self.components, byte_order)
    }

    /// Render the entry's decoded value as display text: decimal
    /// renderings of the elements joined by a comma and a space, text as
    /// itself. Always available for numeric formats; fails exactly where
    /// decoding fails.
    pub fn text_value(&self, byte_order: ByteOrder) -> (r: Result<String, ExifError>)
        ensures
            match r {
                Ok(s) => {
                    &&& extract_model(self@.data, self@.format, self@.components, byte_order)
                        matches Ok(v) && s@ == crate::render::render_value(v)
                },
                Err(e) => extract_model(self@.data, self@.format, self@.components, byte_order)
                    == Err::<crate::value::ValueView, ExifError>(e),
            },
    {
        match self.value(byte_order) {
            Ok(v) => Ok(crate::render::value_text(&v)),
            Err(e) => Err(e),
        }
    }

    /// Repair the entry to comply with the specification: a text entry
    /// whose bytes hold no terminating zero byte gains one. Any other
    /// entry is left untouched.
    pub fn fix(&mut self)
        ensures
            final(self)@ == fix_entry_model(old(self)@),
    {
        proof {
            use_type_invariant(&*self);
        }
        if !matches!(self.format, DataType::Text) {
            return ;
        }
        let mut idx: usize = 0;
        while idx < self.data.len() && self.data[idx] != 0
            invariant
                idx <= self@.data.len(),
                forall|j: int| 0 <= j < idx ==> self@.data[j] != 0,
            decreases self@.data.len() - idx,
        {
            idx += 1;
        }
        proof {
            lemma_first_nul_at(self@.data, idx as int);
        }
        if idx < self.data.len() {
            return ;
        }
        if self.data.len() == usize::MAX {
            return ;
        }
        proof {
            assert(self@.format == DataType::Text);
            assert(size_of_data_type(DataType::Text) * self@.components == self@.components) by {
                vstd::arithmetic::mul::lemma_mul_basics(self@.components as int);
            }
            assert(size_of_data_type(DataType::Text) * (self@.components + 1) == self@.components
                + 1) by {
                vstd::arithmetic::mul::lemma_mul_basics(self@.components as int + 1);
            }
        }
        let mut data = vstd::slice::slice_to_vec(self.data.as_slice());
        data.push(0);
        let fixed = Entry {
            tag: self.tag,
            format: self.format,
            components: self.components + 1,
            data,
        };
        *self = fixed;
        proof {
            assert(self@.data =~= old(self)@.data + seq![0u8]);
        }
    }
}

} // verus!
