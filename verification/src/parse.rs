//! The structural parser: from one complete metadata segment (a byte-order
//! mark, the magic word, and a chain of directories of 12-byte tag
//! records) to a dataset. Every read is validated against the segment's
//! length before it happens; a record whose bytes would lie out of bounds
//! is a corruption error, never an out-of-range read.
use vstd::prelude::*;
use vstd::slice::slice_to_vec;

use crate::ExifError;
use crate::bits::{
    ByteOrder, DataEncoding, DataType, byte_order_of_code, data_type_of_code, size_of_data_type,
};
use crate::codec::{read_u16, read_u32, u16_of_bytes, u32_of_bytes};
use crate::content::{Content, ContentView};
use crate::data::{Data, DataView, content_views};
use crate::entry::{Entry, EntryView, entry_views};

verus! {

/// Code of the pointer tag that holds the camera directory's offset.
pub const EXIF_POINTER_TAG: u16 = 0x8769;

/// Code of the pointer tag that holds the GPS directory's offset.
pub const GPS_POINTER_TAG: u16 = 0x8825;

/// Code of the pointer tag that holds the interoperability directory's
/// offset.
pub const INTEROP_POINTER_TAG: u16 = 0xA005;

/// What parsing the 12-byte record at `pos` yields: the entry, `None` for
/// a record whose format code is unrecognized (such a record is skipped,
/// so that one unknown format does not hide the rest of the directory),
/// or a corruption error for a record whose bytes lie outside the
/// segment.
pub open spec fn parse_entry_model(seg: Seq<u8>, pos: int, order: ByteOrder) -> Result<
    Option<EntryView>,
    ExifError,
>
    recommends
        0 <= pos,
        pos + 12 <= seg.len(),
{
    let tag = u16_of_bytes(seg.subrange(pos, pos + 2), order);
    let fmt_code = u16_of_bytes(seg.subrange(pos + 2, pos + 4), order);
    let count = u32_of_bytes(seg.subrange(pos + 4, pos + 8), order);
    match data_type_of_code(fmt_code) {
        Err(_) => Ok(None),
        Ok(format) => {
            let size = size_of_data_type(format) * count;
            if size <= 4 {
                Ok(
                    Some(
                        EntryView {
                            tag,
                            format,
                            components: count as nat,
                            data: seg.subrange(pos + 8, pos + 8 + size),
                        },
                    ),
                )
            } else {
                let off = u32_of_bytes(seg.subrange(pos + 8, pos + 12), order) as int;
                if off + size <= seg.len() {
                    Ok(
                        Some(
                            EntryView {
                                tag,
                                format,
                                components: count as nat,
                                data: seg.subrange(off, off + size),
                            },
                        ),
                    )
                } else {
                    Err(ExifError::Corrupt)
                }
            }
        },
    }
}

/// The entries of `count` consecutive 12-byte records starting at `pos`,
/// in order, with skipped records left out; the first corrupt record
/// fails the whole directory.
pub open spec fn parse_entries_model(seg: Seq<u8>, pos: int, count: int, order: ByteOrder) -> Result<
    Seq<EntryView>,
    ExifError,
>
    decreases count,
{
    if count <= 0 {
        Ok(Seq::empty())
    } else {
        match parse_entry_model(seg, pos, order) {
            Err(e) => Err(e),
            Ok(head) => match parse_entries_model(seg, pos + 12, count - 1, order) {
                Err(e) => Err(e),
                Ok(rest) => match head {
                    Some(e) => Ok(seq![e] + rest),
                    None => Ok(rest),
                },
            },
        }
    }
}

/// What parsing the directory at `off` yields: its entries and the offset
/// of the next directory (zero when there is none). A directory whose
/// record table runs past the segment's end is a truncation error.
pub open spec fn parse_ifd_model(seg: Seq<u8>, off: int, order: ByteOrder) -> Result<
    (Seq<EntryView>, u32),
    ExifError,
> {
    if off < 0 || off + 2 > seg.len() {
        Err(ExifError::Truncated)
    } else {
        let count = u16_of_bytes(seg.subrange(off, off + 2), order) as int;
        if off + 2 + 12 * count + 4 > seg.len() {
            Err(ExifError::Truncated)
        } else {
            match parse_entries_model(seg, off + 2, count, order) {
                Err(e) => Err(e),
                Ok(entries) => Ok(
                    (
                        entries,
                        u32_of_bytes(
                            seg.subrange(off + 2 + 12 * count, off + 2 + 12 * count + 4),
                            order,
                        ),
                    ),
                ),
            }
        }
    }
}

/// The offset held by the first entry at or after index `i` whose tag is
/// `tag` and whose value is a single unsigned 32-bit integer, if any.
pub open spec fn pointer_target_from(
    entries: Seq<EntryView>,
    i: int,
    tag: u16,
    order: ByteOrder,
) -> Option<u32>
    decreases entries.len() - i,
{
    if i < 0 || i >= entries.len() {
        None
    } else if entries[i].tag == tag && entries[i].format == DataType::U32 && entries[i].components
        == 1 {
        Some(u32_of_bytes(entries[i].data, order))
    } else {
        pointer_target_from(entries, i + 1, tag, order)
    }
}

/// The entries of the sub-directory that a pointer tag within `entries`
/// points at: empty when no such pointer is present.
pub open spec fn sub_ifd_model(
    seg: Seq<u8>,
    entries: Seq<EntryView>,
    tag: u16,
    order: ByteOrder,
) -> Result<Seq<EntryView>, ExifError> {
    match pointer_target_from(entries, 0, tag, order) {
        None => Ok(Seq::empty()),
        Some(off) => match parse_ifd_model(seg, off as int, order) {
            Err(e) => Err(e),
            Ok((entries, _)) => Ok(entries),
        },
    }
}

/// What parsing a complete metadata segment yields. The byte-order mark
/// picks the byte order (an unrecognized mark is a decode error), the
/// magic word must read 42 under it, and the dataset always holds five
/// directories in a fixed order — image, thumbnail, camera, GPS,
/// interoperability — empty where the segment has none. The encoding
/// classifier is not carried by the segment and starts out unknown;
/// pointer entries stay visible in the directory that holds them.
pub open spec fn parse_data_model(seg: Seq<u8>) -> Result<DataView, ExifError> {
    if seg.len() < 8 {
        Err(ExifError::Truncated)
    } else {
        match byte_order_of_code(u16_of_bytes(seg.subrange(0, 2), ByteOrder::BigEndian)) {
            Err(e) => Err(e),
            Ok(order) => {
                if u16_of_bytes(seg.subrange(2, 4), order) != 42 {
                    Err(ExifError::Corrupt)
                } else {
                    match parse_ifd_model(
                        seg,
                        u32_of_bytes(seg.subrange(4, 8), order) as int,
                        order,
                    ) {
                        Err(e) => Err(e),
                        Ok((image, next)) => {
                            match (if next != 0 {
                                parse_ifd_model(seg, next as int, order)
                            } else {
                                Ok((Seq::empty(), 0u32))
                            }) {
                                Err(e) => Err(e),
                                Ok((thumbnail, _)) => match sub_ifd_model(
                                    seg,
                                    image,
                                    EXIF_POINTER_TAG,
                                    order,
                                ) {
                                    Err(e) => Err(e),
                                    Ok(camera) => match sub_ifd_model(
                                        seg,
                                        image,
                                        GPS_POINTER_TAG,
                                        order,
                                    ) {
                                        Err(e) => Err(e),
                                        Ok(gps) => match sub_ifd_model(
                                            seg,
                                            camera,
                                            INTEROP_POINTER_TAG,
                                            order,
                                        ) {
                                            Err(e) => Err(e),
                                            Ok(interop) => Ok(
                                                DataView {
                                                    byte_order: order,
                                                    encoding: DataEncoding::Unknown,
                                                    options: Set::empty(),
                                                    contents: seq![
                                                        ContentView { ifd_code: 0, entries: image },
                                                        ContentView {
                                                            ifd_code: 1,
                                                            entries: thumbnail,
                                                        },
                                                        ContentView {
                                                            ifd_code: 2,
                                                            entries: camera,
                                                        },
                                                        ContentView { ifd_code: 3, entries: gps },
                                                        ContentView {
                                                            ifd_code: 4,
                                                            entries: interop,
                                                        },
                                                    ],
                                                },
                                            ),
                                        },
                                    },
                                },
                            }
                        },
                    }
                }
            },
        }
    }
}

/// A parsed-entry result, seen at the level of the mathematical model.
pub open spec fn entry_option_view(r: Result<Option<Entry>, ExifError>) -> Result<
    Option<EntryView>,
    ExifError,
> {
    match r {
        Ok(Some(e)) => Ok(Some(e@)),
        Ok(None) => Ok(None),
        Err(e) => Err(e),
    }
}

/// A parsed-directory result, seen at the level of the mathematical model.
pub open spec fn ifd_result_view(r: Result<(Vec<Entry>, u32), ExifError>) -> Result<
    (Seq<EntryView>, u32),
    ExifError,
> {
    match r {
        Ok((entries, next)) => Ok((entry_views(entries@), next)),
        Err(e) => Err(e),
    }
}

/// Entries already gathered, put in front of what a parse of the
/// remaining records yields.
pub open spec fn prepend_entries(prefix: Seq<EntryView>, r: Result<Seq<EntryView>, ExifError>) -> Result<
    Seq<EntryView>,
    ExifError,
> {
    match r {
        Ok(rest) => Ok(prefix + rest),
        Err(e) => Err(e),
    }
}

fn parse_entry(seg: &[u8], pos: usize, order: ByteOrder) -> (r: Result<Option<Entry>, ExifError>)
    requires
        pos + 12 <= seg@.len(),
    ensures
        entry_option_view(r) == parse_entry_model(seg@, pos as int, order),
{
    let len = seg.len();
    let tag = read_u16(&seg[pos..pos + 2], order);
    let fmt_code = read_u16(&seg[pos + 2..pos + 4], order);
    let count = read_u32(&seg[pos + 4..pos + 8], order);
    match DataType::from_code(fmt_code) {
        Err(_) => Ok(None),
        Ok(format) => {
            proof {
                assert((size_of_data_type(format) as int) * (count as int) <= 8 * 0xFFFF_FFFFint)
                    by (nonlinear_arith)
                    requires
                        1 <= size_of_data_type(format) as int <= 8,
                        0 <= count as int <= 0xFFFF_FFFFint,
                ;
            }
            let size64 = (format.size() as u64) * (count as u64);
            if size64 <= 4 {
                let size = size64 as usize;
                let data = slice_to_vec(&seg[pos + 8..pos + 8 + size]);
                match Entry::new(tag, format, count as usize, data) {
                    Ok(e) => Ok(Some(e)),
                    Err(_) => {
                        proof {
                            assert(false);
                        }
                        Err(ExifError::Corrupt)
                    },
                }
            } else {
                let off = read_u32(&seg[pos + 8..pos + 12], order);
                if off as u64 + size64 <= len as u64 {
                    let start = off as usize;
                    let end = (off as u64 + size64) as usize;
                    let data = slice_to_vec(&seg[start..end]);
                    match Entry::new(tag, format, count as usize, data) {
                        Ok(e) => Ok(Some(e)),
                        Err(_) => {
                            proof {
                                assert(false);
                            }
                            Err(ExifError::Corrupt)
                        },
                    }
                } else {
                    Err(ExifError::Corrupt)
                }
            }
        },
    }
}

fn parse_ifd(seg: &[u8], off: u32, order: ByteOrder) -> (r: Result<(Vec<Entry>, u32), ExifError>)
    ensures
        ifd_result_view(r) == parse_ifd_model(seg@, off as int, order),
{
    let len = seg.len();
    if off as u64 + 2 > len as u64 {
        return Err(ExifError::Truncated);
    }
    let start = off as usize;
    let count16 = read_u16(&seg[start..start + 2], order);
    if off as u64 + 2 + 12 * (count16 as u64) + 4 > len as u64 {
        return Err(ExifError::Truncated);
    }
    let base = start + 2;
    let count = count16 as usize;
    let mut entries: Vec<Entry> = Vec::new();
    let mut i: usize = 0;
    while i < count
        invariant
            i <= count,
            base + 12 * count + 4 <= len,
            len == seg@.len(),
            parse_ifd_model(seg@, off as int, order) == (match parse_entries_model(
                seg@,
                base as int,
                count as int,
                order,
            ) {
                Ok(es) => Ok::<(Seq<EntryView>, u32), ExifError>(
                    (
                        es,
                        u32_of_bytes(
                            seg@.subrange(base + 12 * count, base + 12 * count + 4),
                            order,
                        ),
                    ),
                ),
                Err(e) => Err::<(Seq<EntryView>, u32), ExifError>(e),
            }),
            prepend_entries(
                entry_views(entries@),
                parse_entries_model(seg@, base + 12 * i, count - i, order),
            ) == parse_entries_model(seg@, base as int, count as int, order),
        decreases count - i,
    {
        let ghost prefix = entry_views(entries@);
        match parse_entry(seg, base + 12 * i, order) {
            Err(e) => {
                proof {
                    assert(parse_entries_model(seg@, base as int, count as int, order)
                        == Err::<Seq<EntryView>, ExifError>(e));
                }
                return Err(e);
            },
            Ok(None) => {},
            Ok(Some(e)) => {
                proof {
                    assert(entry_views(entries@.push(e)) =~= prefix + seq![e@]);
                    if let Ok(rest) = parse_entries_model(
                        seg@,
                        base + 12 * (i + 1),
                        count - i - 1,
                        order,
                    ) {
                        assert((prefix + seq![e@]) + rest =~= prefix + (seq![e@] + rest));
                    }
                }
                entries.push(e);
            },
        }
        i += 1;
    }
    proof {
        assert(entry_views(entries@) + Seq::<EntryView>::empty() =~= entry_views(entries@));
    }
    let next = read_u32(&seg[base + 12 * count..base + 12 * count + 4], order);
    Ok((entries, next))
}

fn pointer_target(entries: &Vec<Entry>, tag: u16, order: ByteOrder) -> (r: Option<u32>)
    ensures
        r == pointer_target_from(entry_views(entries@), 0, tag, order),
{
    let ghost views = entry_views(entries@);
    let mut i: usize = 0;
    while i < entries.len()
        invariant
            i <= entries@.len(),
            views == entry_views(entries@),
            pointer_target_from(views, 0, tag, order) == pointer_target_from(
                views,
                i as int,
                tag,
                order,
            ),
        decreases entries@.len() - i,
    {
        let e = &entries[i];
        if e.tag().code() == tag as u32 && matches!(e.data_type(), DataType::U32)
            && e.components() == 1 {
            proof {
                use_type_invariant(e);
                assert(e@.data.len() == size_of_data_type(DataType::U32) * 1);
            }
            return Some(read_u32(e.raw_data(), order));
        }
        i += 1;
    }
    None
}

/// Parse one complete metadata segment into a dataset; the result is
/// exactly what [`parse_data_model`] ascribes to the bytes.
pub fn parse_data(seg: &[u8]) -> (r: Result<Data, ExifError>)
    ensures
        crate::data::data_result_view(r) == parse_data_model(seg@),
{
    if seg.len() < 8 {
        return Err(ExifError::Truncated);
    }
    let order = match ByteOrder::from_code(read_u16(&seg[0..2], ByteOrder::BigEndian)) {
        Ok(order) => order,
        Err(e) => {
            return Err(e);
        },
    };
    if read_u16(&seg[2..4], order) != 42 {
        return Err(ExifError::Corrupt);
    }
    let ifd0_off = read_u32(&seg[4..8], order);
    let (image, next) = match parse_ifd(seg, ifd0_off, order) {
        Ok(ok) => ok,
        Err(e) => {
            return Err(e);
        },
    };
    let ghost image_v = entry_views(image@);
    let thumbnail = if next != 0 {
        match parse_ifd(seg, next, order) {
            Ok((entries, _)) => entries,
            Err(e) => {
                return Err(e);
            },
        }
    } else {
        Vec::new()
    };
    let ghost thumbnail_v = entry_views(thumbnail@);
    proof {
        if next == 0 {
            assert(thumbnail_v =~= Seq::<EntryView>::empty());
        }
    }
    let camera = match parse_sub_ifd(seg, &image, EXIF_POINTER_TAG, order) {
        Ok(entries) => entries,
        Err(e) => {
            return Err(e);
        },
    };
    let ghost camera_v = entry_views(camera@);
    let gps = match parse_sub_ifd(seg, &image, GPS_POINTER_TAG, order) {
        Ok(entries) => entries,
        Err(e) => {
            return Err(e);
        },
    };
    let ghost gps_v = entry_views(gps@);
    let interop = match parse_sub_ifd(seg, &camera, INTEROP_POINTER_TAG, order) {
        Ok(entries) => entries,
        Err(e) => {
            return Err(e);
        },
    };
    let ghost interop_v = entry_views(interop@);
    let mut contents: Vec<Content> = Vec::new();
    contents.push(Content::new(0, image));
    contents.push(Content::new(1, thumbnail));
    contents.push(Content::new(2, camera));
    contents.push(Content::new(3, gps));
    contents.push(Content::new(4, interop));
    let data = Data::new(order, DataEncoding::Unknown, contents);
    proof {
        let target = seq![
            ContentView { ifd_code: 0u32, entries: image_v },
            ContentView { ifd_code: 1u32, entries: thumbnail_v },
            ContentView { ifd_code: 2u32, entries: camera_v },
            ContentView { ifd_code: 3u32, entries: gps_v },
            ContentView { ifd_code: 4u32, entries: interop_v },
        ];
        assert(data@.contents =~= target);
        assert(parse_data_model(seg@) == Ok::<DataView, ExifError>(data@));
    }
    Ok(data)
}

fn parse_sub_ifd(seg: &[u8], entries: &Vec<Entry>, tag: u16, order: ByteOrder) -> (r: Result<
    Vec<Entry>,
    ExifError,
>)
    ensures
        (match r {
            Ok(entries) => Ok(entry_views(entries@)),
            Err(e) => Err(e),
        }) == sub_ifd_model(seg@, entry_views(entries@), tag, order),
{
    match pointer_target(entries, tag, order) {
        None => {
            let empty: Vec<Entry> = Vec::new();
            proof {
                assert(entry_views(empty@) =~= Seq::<EntryView>::empty());
            }
            Ok(empty)
        },
        Some(off) => match parse_ifd(seg, off, order) {
            Ok((entries, _)) => Ok(entries),
            Err(e) => Err(e),
        },
    }
}

} // verus!
