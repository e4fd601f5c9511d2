//! The incremental loader: accepts append-only chunks of an image byte
//! stream of unknown total length, detects when a complete metadata
//! segment has been seen, and yields the parsed dataset once it has.
//!
//! Three containers are recognized from the first bytes: a JPEG stream
//! (whose marker segments are walked until the metadata segment is found
//! complete, or found absent), a bare metadata header followed by the
//! segment, and a raw segment itself. For the latter two the total length
//! cannot be known in advance, so the loader keeps asking for more and
//! parses whatever has accumulated when the caller is done feeding.
use vstd::prelude::*;

use crate::ExifError;
use crate::bits::ByteOrder;
use crate::codec::u16_of_bytes;
use crate::data::{Data, DataView, data_result_view};
use crate::parse::{parse_data, parse_data_model};

verus! {

/// What probing the accumulated bytes concludes.
pub enum Probe {
    /// No verdict yet: more bytes are needed.
    NeedMore,
    /// The bytes are a metadata segment that runs to the end of the
    /// stream, starting at `start`; only the caller knows when it ends.
    Stream { start: int },
    /// A complete metadata segment sits at `start..end`.
    Complete { start: int, end: int },
    /// The bytes are not a recognizable container.
    Rejected,
}

/// The marker segment prelude that announces a metadata segment within a
/// JPEG stream.
pub open spec fn exif_header() -> Seq<u8> {
    seq![0x45u8, 0x78u8, 0x69u8, 0x66u8, 0x00u8, 0x00u8]
}

/// Walk the JPEG marker segments from `pos`: skip fill bytes and
/// standalone markers, follow each segment's declared length, conclude
/// `Complete` at a whole metadata segment, `Rejected` at the start of
/// scan or end of image (no metadata can follow), and `NeedMore` wherever
/// the bytes so far end before a verdict.
pub open spec fn scan_jpeg_model(buf: Seq<u8>, pos: int) -> Probe
    decreases buf.len() - pos,
{
    if pos + 2 > buf.len() {
        Probe::NeedMore
    } else if buf[pos] != 0xFF {
        Probe::Rejected
    } else {
        let marker = buf[pos + 1];
        if marker == 0xD9 || marker == 0xDA {
            Probe::Rejected
        } else if marker == 0x01 || (0xD0 <= marker && marker <= 0xD7) {
            scan_jpeg_model(buf, pos + 2)
        } else if marker == 0xFF {
            scan_jpeg_model(buf, pos + 1)
        } else if pos + 4 > buf.len() {
            Probe::NeedMore
        } else {
            let seglen = u16_of_bytes(buf.subrange(pos + 2, pos + 4), ByteOrder::BigEndian) as int;
            if seglen < 2 {
                Probe::Rejected
            } else {
                let dend = pos + 2 + seglen;
                if marker == 0xE1 && seglen >= 8 {
                    if pos + 10 > buf.len() {
                        Probe::NeedMore
                    } else if buf.subrange(pos + 4, pos + 10) == exif_header() {
                        if dend > buf.len() {
                            Probe::NeedMore
                        } else {
                            Probe::Complete { start: pos + 10, end: dend }
                        }
                    } else if dend > buf.len() {
                        Probe::NeedMore
                    } else {
                        scan_jpeg_model(buf, dend)
                    }
                } else if dend > buf.len() {
                    Probe::NeedMore
                } else {
                    scan_jpeg_model(buf, dend)
                }
            }
        }
    }
}

/// What the accumulated bytes are so far: a JPEG stream is scanned for
/// its metadata segment; a bare metadata header or a raw segment (spotted
/// by its byte-order mark) runs to the end of the stream; anything else
/// is not a recognizable container.
pub open spec fn probe_model(buf: Seq<u8>) -> Probe {
    if buf.len() == 0 {
        Probe::NeedMore
    } else if buf[0] == 0xFF {
        if buf.len() < 2 {
            Probe::NeedMore
        } else if buf[1] == 0xD8 {
            scan_jpeg_model(buf, 2)
        } else {
            Probe::Rejected
        }
    } else if buf[0] == 0x45 {
        if buf.len() < 6 {
            Probe::NeedMore
        } else if buf.subrange(0, 6) == exif_header() {
            Probe::Stream { start: 6 }
        } else {
            Probe::Rejected
        }
    } else if buf[0] == 0x49 {
        if buf.len() < 2 {
            Probe::NeedMore
        } else if buf[1] == 0x49 {
            Probe::Stream { start: 0 }
        } else {
            Probe::Rejected
        }
    } else if buf[0] == 0x4D {
        if buf.len() < 2 {
            Probe::NeedMore
        } else if buf[1] == 0x4D {
            Probe::Stream { start: 0 }
        } else {
            Probe::Rejected
        }
    } else {
        Probe::Rejected
    }
}

/// The loader's place in its lifecycle.
#[derive(Debug, PartialEq, Eq, Clone, Copy, Structural)]
pub enum LoaderState {
    /// Still gathering bytes; nothing terminal has been concluded.
    Accumulating,
    /// A complete metadata segment has been seen; feeding is over.
    Ready,
    /// The bytes are structurally invalid; no feeding can recover this.
    Failed,
}

/// The state that a probe verdict puts the loader in.
pub open spec fn state_of_probe(p: Probe) -> LoaderState {
    match p {
        Probe::NeedMore => LoaderState::Accumulating,
        Probe::Stream { .. } => LoaderState::Accumulating,
        Probe::Complete { .. } => LoaderState::Ready,
        Probe::Rejected => LoaderState::Failed,
    }
}

/// The loader's state after accumulating the given bytes.
pub open spec fn loader_state(buf: Seq<u8>) -> LoaderState {
    state_of_probe(probe_model(buf))
}

/// What one feed does to the accumulated bytes: appends the chunk, unless
/// the loader is already in a terminal state, in which case the chunk is
/// ignored and nothing changes.
pub open spec fn loader_feed(buf: Seq<u8>, chunk: Seq<u8>) -> Seq<u8> {
    if loader_state(buf) != LoaderState::Accumulating {
        buf
    } else {
        buf + chunk
    }
}

/// The dataset that the accumulated bytes yield: the parse of the located
/// segment. Bytes that end before a verdict are a truncation error; an
/// unrecognizable container is a corruption error.
pub open spec fn loader_result(buf: Seq<u8>) -> Result<DataView, ExifError> {
    match probe_model(buf) {
        Probe::NeedMore => Err(ExifError::Truncated),
        Probe::Rejected => Err(ExifError::Corrupt),
        Probe::Stream { start } => parse_data_model(buf.subrange(start, buf.len() as int)),
        Probe::Complete { start, end } => parse_data_model(buf.subrange(start, end)),
    }
}

/// Once the loader has reached a terminal state — a complete segment
/// seen, or the stream rejected — feeding more bytes alters nothing: the
/// accumulated bytes, and with them the dataset the loader yields, stay
/// exactly as they were.
pub proof fn lemma_feed_after_done(buf: Seq<u8>, chunk: Seq<u8>)
    requires
        loader_state(buf) != LoaderState::Accumulating,
    ensures
        loader_feed(buf, chunk) == buf,
        loader_result(loader_feed(buf, chunk)) == loader_result(buf),
{
}

proof fn lemma_scan_complete_bounds(buf: Seq<u8>, pos: int)
    requires
        0 <= pos,
    ensures
        scan_jpeg_model(buf, pos) matches Probe::Complete { start, end } ==> 0 <= start <= end
            <= buf.len(),
        !(scan_jpeg_model(buf, pos) is Stream),
    decreases buf.len() - pos,
{
    if pos + 2 > buf.len() {
    } else if buf[pos] != 0xFF {
    } else {
        let marker = buf[pos + 1];
        if marker == 0xD9 || marker == 0xDA {
        } else if marker == 0x01 || (0xD0 <= marker && marker <= 0xD7) {
            lemma_scan_complete_bounds(buf, pos + 2);
        } else if marker == 0xFF {
            lemma_scan_complete_bounds(buf, pos + 1);
        } else if pos + 4 <= buf.len() {
            let seglen = u16_of_bytes(buf.subrange(pos + 2, pos + 4), ByteOrder::BigEndian) as int;
            if seglen >= 2 && pos + 2 + seglen <= buf.len() {
                lemma_scan_complete_bounds(buf, pos + 2 + seglen);
            }
        }
    }
}

proof fn lemma_probe_bounds(buf: Seq<u8>)
    ensures
        probe_model(buf) matches Probe::Complete { start, end } ==> 0 <= start <= end
            <= buf.len(),
        probe_model(buf) matches Probe::Stream { start } ==> 0 <= start <= buf.len(),
{
    if buf.len() >= 2 && buf[0] == 0xFF && buf[1] == 0xD8 {
        lemma_scan_complete_bounds(buf, 2);
    }
}

enum ProbeOutcome {
    NeedMore,
    Stream(usize),
    Complete(usize, usize),
    Rejected,
}

spec fn probe_outcome_view(p: ProbeOutcome) -> Probe {
    match p {
        ProbeOutcome::NeedMore => Probe::NeedMore,
        ProbeOutcome::Stream(start) => Probe::Stream { start: start as int },
        ProbeOutcome::Complete(start, end) => Probe::Complete {
            start: start as int,
            end: end as int,
        },
        ProbeOutcome::Rejected => Probe::Rejected,
    }
}

fn is_exif_header_at(buf: &[u8], pos: usize) -> (r: bool)
    requires
        pos + 6 <= buf@.len(),
    ensures
        r == (buf@.subrange(pos as int, pos as int + 6) == exif_header()),
{
    let r = buf[pos] == 0x45 && buf[pos + 1] == 0x78 && buf[pos + 2] == 0x69 && buf[pos + 3]
        == 0x66 && buf[pos + 4] == 0x00 && buf[pos + 5] == 0x00;
    proof {
        let s = buf@.subrange(pos as int, pos as int + 6);
        assert(s[0] == buf@[pos as int]);
        assert(s[1] == buf@[pos as int + 1]);
        assert(s[2] == buf@[pos as int + 2]);
        assert(s[3] == buf@[pos as int + 3]);
        assert(s[4] == buf@[pos as int + 4]);
        assert(s[5] == buf@[pos as int + 5]);
        if r {
            assert(s =~= exif_header());
        }
    }
    r
}

fn scan_jpeg(buf: &[u8]) -> (r: ProbeOutcome)
    requires
        buf@.len() >= 2,
    ensures
        probe_outcome_view(r) == scan_jpeg_model(buf@, 2),
{
    let len = buf.len();
    let mut pos: usize = 2;
    while pos <= len - 2
        invariant
            2 <= pos <= len,
            len == buf@.len(),
            scan_jpeg_model(buf@, 2) == scan_jpeg_model(buf@, pos as int),
        decreases len - pos,
    {
        if buf[pos] != 0xFF {
            return ProbeOutcome::Rejected;
        }
        let marker = buf[pos + 1];
        if marker == 0xD9 || marker == 0xDA {
            return ProbeOutcome::Rejected;
        } else if marker == 0x01 || (0xD0 <= marker && marker <= 0xD7) {
            pos += 2;
        } else if marker == 0xFF {
            pos += 1;
        } else {
            if len < 4 || pos > len - 4 {
                return ProbeOutcome::NeedMore;
            }
            let seglen = read_seglen(buf, pos);
            if seglen < 2 {
                return ProbeOutcome::Rejected;
            }
            let avail = len - pos - 2;
            if marker == 0xE1 && seglen >= 8 {
                if len < 10 || pos > len - 10 {
                    return ProbeOutcome::NeedMore;
                }
                if is_exif_header_at(buf, pos + 4) {
                    if seglen as usize > avail {
                        return ProbeOutcome::NeedMore;
                    }
                    return ProbeOutcome::Complete(pos + 10, pos + 2 + seglen as usize);
                }
            }
            if seglen as usize > avail {
                return ProbeOutcome::NeedMore;
            }
            pos = pos + 2 + seglen as usize;
        }
    }
    ProbeOutcome::NeedMore
}

fn read_seglen(buf: &[u8], pos: usize) -> (r: u16)
    requires
        pos + 4 <= buf@.len(),
    ensures
        r == u16_of_bytes(buf@.subrange(pos + 2, pos + 4), ByteOrder::BigEndian),
{
    let len = buf.len();
    proof {
        assert(pos + 4 <= len);
    }
    crate::codec::read_u16(&buf[pos + 2..pos + 4], ByteOrder::BigEndian)
}

fn probe(buf: &[u8]) -> (r: ProbeOutcome)
    ensures
        probe_outcome_view(r) == probe_model(buf@),
{
    let len = buf.len();
    if len == 0 {
        return ProbeOutcome::NeedMore;
    }
    let b0 = buf[0];
    if b0 == 0xFF {
        if len < 2 {
            ProbeOutcome::NeedMore
        } else if buf[1] == 0xD8 {
            scan_jpeg(buf)
        } else {
            ProbeOutcome::Rejected
        }
    } else if b0 == 0x45 {
        if len < 6 {
            ProbeOutcome::NeedMore
        } else if is_exif_header_at(buf, 0) {
            ProbeOutcome::Stream(6)
        } else {
            ProbeOutcome::Rejected
        }
    } else if b0 == 0x49 {
        if len < 2 {
            ProbeOutcome::NeedMore
        } else if buf[1] == 0x49 {
            ProbeOutcome::Stream(0)
        } else {
            ProbeOutcome::Rejected
        }
    } else if b0 == 0x4D {
        if len < 2 {
            ProbeOutcome::NeedMore
        } else if buf[1] == 0x4D {
            ProbeOutcome::Stream(0)
        } else {
            ProbeOutcome::Rejected
        }
    } else {
        ProbeOutcome::Rejected
    }
}

/// The incremental loader: a growing buffer of stream bytes. Its state is
/// a function of what has accumulated: still gathering, ready with a
/// complete segment, or failed on an unrecognizable stream.
#[derive(Debug)]
pub struct Loader {
    buf: Vec<u8>,
}

impl View for Loader {
    type V = Seq<u8>;

    closed spec fn view(&self) -> Seq<u8> {
        self.buf@
    }
}

impl Loader {
    /// A fresh loader that has consumed nothing.
    pub fn new() -> (r: Loader)
        ensures
            r@ == Seq::<u8>::empty(),
            loader_state(r@) == LoaderState::Accumulating,
    {
        let r = Loader { buf: Vec::new() };
        proof {
            assert(r@ =~= Seq::<u8>::empty());
        }
        r
    }

    /// The loader's place in its lifecycle.
    pub fn state(&self) -> (r: LoaderState)
        ensures
            r == loader_state(self@),
    {
        match probe(self.buf.as_slice()) {
            ProbeOutcome::NeedMore => LoaderState::Accumulating,
            ProbeOutcome::Stream(_) => LoaderState::Accumulating,
            ProbeOutcome::Complete(_, _) => LoaderState::Ready,
            ProbeOutcome::Rejected => LoaderState::Failed,
        }
    }

    /// Feed the next chunk of the stream. The chunk is appended — unless
    /// the loader is already done or failed, in which case it is ignored
    /// and nothing changes. Returns whether the loader wants more bytes.
    pub fn write_data(&mut self, data: &[u8]) -> (more: bool)
        ensures
            final(self)@ == loader_feed(old(self)@, data@),
            more == (loader_state(final(self)@) == LoaderState::Accumulating),
    {
        match probe(self.buf.as_slice()) {
            ProbeOutcome::Complete(_, _) => {
                return false;
            },
            ProbeOutcome::Rejected => {
                return false;
            },
            _ => {},
        }
        let mut i: usize = 0;
        while i < data.len()
            invariant
                i <= data@.len(),
                loader_state(old(self)@) == LoaderState::Accumulating,
                self.buf@ == old(self)@ + data@.subrange(0, i as int),
            decreases data@.len() - i,
        {
            self.buf.push(data[i]);
            proof {
                assert(old(self)@ + data@.subrange(0, i + 1) =~= (old(self)@ + data@.subrange(
                    0,
                    i as int,
                )).push(data@[i as int]));
            }
            i += 1;
        }
        proof {
            assert(data@.subrange(0, data@.len() as int) =~= data@);
        }
        match probe(self.buf.as_slice()) {
            ProbeOutcome::NeedMore => true,
            ProbeOutcome::Stream(_) => true,
            ProbeOutcome::Complete(_, _) => false,
            ProbeOutcome::Rejected => false,
        }
    }

    /// The dataset parsed from the accumulated bytes, if they hold a
    /// structurally valid one.
    pub fn data(&self) -> (r: Option<Data>)
        ensures
            match r {
                Some(d) => loader_result(self@) == Ok::<DataView, ExifError>(d@),
                None => loader_result(self@) is Err,
            },
    {
        match self.finish() {
            Ok(d) => Some(d),
            Err(_) => None,
        }
    }

    /// The dataset parsed from the accumulated bytes, or the error that
    /// stands in its way: truncation while bytes are still missing,
    /// corruption for an unrecognizable or structurally invalid stream.
    pub fn finish(&self) -> (r: Result<Data, ExifError>)
        ensures
            data_result_view(r) == loader_result(self@),
    {
        proof {
            lemma_probe_bounds(self@);
        }
        match probe(self.buf.as_slice()) {
            ProbeOutcome::NeedMore => Err(ExifError::Truncated),
            ProbeOutcome::Rejected => Err(ExifError::Corrupt),
            ProbeOutcome::Stream(start) => parse_data(&self.buf.as_slice()[start..self.buf.len()]),
            ProbeOutcome::Complete(start, end) => parse_data(&self.buf.as_slice()[start..end]),
        }
    }
}

} // verus!
