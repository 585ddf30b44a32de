//! RIFF / RF64 WAVE header parser for 32-bit float data.
//!
//! What is parsed: the `RIFF` and `RF64` magic; the `ds64` chunk (RF64 only) for
//! the true 64-bit data size; a `fmt ` chunk of `WAVE_FORMAT_IEEE_FLOAT` or of
//! `WAVE_FORMAT_EXTENSIBLE` with the IEEE-float subtype; the place and length of
//! the `data` chunk. Other chunks before `data` are skipped. A file whose `data`
//! chunk comes before its `fmt ` chunk is rejected.
//!
//! [`HeaderParser`] asks for bytes and is fed with them, so that a header can be
//! read from a file of any size; [`parse_header`] runs it on bytes in memory.
use crate::bytes::{
    law_u16_reads_back, law_u32_reads_back, le16, le32, read_u16, read_u32, read_u64, u16_at,
    u32_at, u64_at,
};
use crate::recorder::wav::header::{data_tag, fmt_tag, riff_tag, wave_tag, FORMAT_TAG_IEEE_FLOAT};
use crate::recorder::wav::rf64::{ds64_tag, rf64_tag, RF64_SIZE_SENTINEL};
use crate::text::{
    bracketed, byte_items, decimal, hex4, push_byte_list, push_decimal, push_hex4, with_decimal,
};
use vstd::prelude::*;
use vstd::slice::{slice_subrange, slice_to_vec};
use vstd::string::*;

verus! {

pub const FORMAT_TAG_EXTENSIBLE: u16 = 0xFFFE;

/// The 16 bytes of `KSDATAFORMAT_SUBTYPE_IEEE_FLOAT`
/// (`00000003-0000-0010-8000-00aa00389b71`).
pub open spec fn ieee_float_subtype() -> Seq<u8> {
    seq![
        0x03,
        0x00,
        0x00,
        0x00,
        0x00,
        0x00,
        0x10,
        0x00,
        0x80,
        0x00,
        0x00,
        0xAA,
        0x00,
        0x38,
        0x9B,
        0x71,
    ]
}

/// What a WAVE header says; enough to seek and to read interleaved 32-bit float
/// samples.
#[derive(Debug, Clone, Copy, PartialEq, Eq, Structural)]
pub struct WavMeta {
    pub sample_rate: u32,
    pub channels: u16,
    /// File offset of the first sample.
    pub data_offset: u64,
    /// Length of the sample data in bytes: from the `ds64` chunk where the
    /// `data` chunk of an RF64 file defers to it, else from the `data` chunk.
    pub data_bytes: u64,
}

impl WavMeta {
    /// Number of whole frames; zero where a frame has no bytes.
    pub open spec fn frames(self) -> u64 {
        if self.channels == 0 {
            0
        } else {
            (self.data_bytes as int / (self.channels * 4)) as u64
        }
    }

    /// Number of whole frames; zero where a frame has no bytes.
    pub fn frame_count(&self) -> (r: u64)
        ensures
            r == self.frames(),
    {
        let frame_size: u64 = (self.channels as u64) * 4;
        if frame_size == 0 {
            0
        } else {
            let n: u64 = self.data_bytes / frame_size;
            n
        }
    }
}

/// Why a header was not accepted.
#[derive(Debug, PartialEq, Eq)]
pub enum ParseError {
    Io(String),
    NotWav(String),
    Unsupported(String),
}

/// A [`ParseError`] with its text as a sequence.
pub enum ParseFault {
    Io(Seq<char>),
    NotWav(Seq<char>),
    Unsupported(Seq<char>),
}

impl View for ParseError {
    type V = ParseFault;

    open spec fn view(&self) -> ParseFault {
        match self {
            ParseError::Io(m) => ParseFault::Io(m@),
            ParseError::NotWav(m) => ParseFault::NotWav(m@),
            ParseError::Unsupported(m) => ParseFault::Unsupported(m@),
        }
    }
}

impl ParseError {
    /// The text of the error.
    pub open spec fn text(&self) -> Seq<char> {
        match self {
            ParseError::Io(m) => "io: "@ + m@,
            ParseError::NotWav(m) => "not a WAVE file: "@ + m@,
            ParseError::Unsupported(m) => "unsupported WAVE format: "@ + m@,
        }
    }

    /// The text of the error.
    pub fn message(&self) -> (r: String)
        ensures
            r@ == self.text(),
    {
        match self {
            ParseError::Io(m) => "io: ".to_owned().concat(m.as_str()),
            ParseError::NotWav(m) => "not a WAVE file: ".to_owned().concat(m.as_str()),
            ParseError::Unsupported(m) => "unsupported WAVE format: ".to_owned().concat(m.as_str()),
        }
    }
}

/// What parsing comes to.
pub type Outcome = Result<WavMeta, ParseFault>;

/// The view of a parse result.
pub open spec fn outcome_of(r: Result<WavMeta, ParseError>) -> Outcome {
    match r {
        Ok(meta) => Ok(meta),
        Err(e) => Err(e@),
    }
}

/// What a read reports that meets the end of the data.
pub open spec fn eof_text() -> Seq<char> {
    "failed to fill whole buffer"@
}

/// Where the chunk after one of `size` bytes at `pos` begins: chunks are padded
/// to an even size.
pub open spec fn next_chunk(pos: int, size: u32) -> int {
    pos + 8 + size + size % 2
}

/// The sample rate and channel count of a `fmt ` chunk whose body of `size`
/// bytes begins at `body`.
pub open spec fn fmt_chunk(b: Seq<u8>, body: int, size: u32) -> Result<(u32, u16), ParseFault> {
    if size < 16 {
        Err(ParseFault::NotWav("fmt size "@ + decimal(size as nat) + " < 16"@))
    } else if body + 16 > b.len() {
        Err(ParseFault::Io(eof_text()))
    } else {
        let tag = u16_at(b, body);
        let bits = u16_at(b, body + 14);
        if bits != 32 {
            Err(
                ParseFault::Unsupported(
                    "bits_per_sample = "@ + decimal(bits as nat) + ", expected 32"@,
                ),
            )
        } else if tag == FORMAT_TAG_IEEE_FLOAT {
            Ok((u32_at(b, body + 4), u16_at(b, body + 2)))
        } else if tag == FORMAT_TAG_EXTENSIBLE {
            if size < 40 {
                Err(
                    ParseFault::Unsupported(
                        "EXTENSIBLE fmt size "@ + decimal(size as nat) + " < 40"@,
                    ),
                )
            } else {
                fmt_extension(b, body, u32_at(b, body + 4), u16_at(b, body + 2))
            }
        } else {
            Err(
                ParseFault::Unsupported(
                    "format_tag = 0x"@ + hex4(tag)
                        + ", expected IEEE_FLOAT (0x0003) or EXTENSIBLE (0xFFFE)"@,
                ),
            )
        }
    }
}

/// The 24 bytes that an extensible format adds: the subtype must be IEEE float.
pub open spec fn fmt_extension(b: Seq<u8>, body: int, sample_rate: u32, channels: u16) -> Result<
    (u32, u16),
    ParseFault,
> {
    if body + 40 > b.len() {
        Err(ParseFault::Io(eof_text()))
    } else if b.subrange(body + 24, body + 40) == ieee_float_subtype() {
        Ok((sample_rate, channels))
    } else {
        Err(
            ParseFault::Unsupported("EXTENSIBLE subtype is not KSDATAFORMAT_SUBTYPE_IEEE_FLOAT"@),
        )
    }
}

/// The end of the walk, at a `data` chunk of size `size` whose body begins at
/// `offset`.
pub open spec fn data_chunk(
    offset: int,
    size: u32,
    is_rf64: bool,
    fmt: Option<(u32, u16)>,
    ds64: Option<u64>,
) -> Outcome {
    if is_rf64 && size == RF64_SIZE_SENTINEL && ds64 is None {
        Err(ParseFault::NotWav("RF64 data chunk uses sentinel size but no ds64 chunk seen"@))
    } else {
        let bytes = if is_rf64 && size == RF64_SIZE_SENTINEL {
            ds64->Some_0
        } else {
            size as u64
        };
        match fmt {
            None => Err(ParseFault::NotWav("no fmt chunk before data"@)),
            Some((sample_rate, channels)) => if channels == 0 || bytes as int % (channels * 4)
                != 0 {
                Err(
                    ParseFault::NotWav(
                        "data_bytes "@ + decimal(bytes as nat) + " is not a whole number of "@
                            + decimal(channels as nat) + "-channel frames"@,
                    ),
                )
            } else {
                Ok(WavMeta { sample_rate, channels, data_offset: offset as u64, data_bytes: bytes })
            },
        }
    }
}

/// How much of `b` lies from `pos` on.
pub open spec fn left(b: Seq<u8>, pos: int) -> int {
    if pos < b.len() {
        b.len() - pos
    } else {
        0
    }
}

/// The walk over the chunks from `pos` on, with what the chunks before said.
pub open spec fn chunks(
    b: Seq<u8>,
    pos: int,
    is_rf64: bool,
    fmt: Option<(u32, u16)>,
    ds64: Option<u64>,
) -> Outcome
    decreases left(b, pos),
{
    if pos + 4 > b.len() {
        Err(ParseFault::NotWav("end of file before data chunk: "@ + eof_text()))
    } else if pos + 8 > b.len() {
        Err(ParseFault::Io(eof_text()))
    } else {
        let id = b.subrange(pos, pos + 4);
        let size = u32_at(b, pos + 4);
        let next = next_chunk(pos, size);
        if id == ds64_tag() {
            if !is_rf64 {
                Err(ParseFault::NotWav("ds64 chunk in non-RF64 file"@))
            } else if size < 28 {
                Err(ParseFault::NotWav("ds64 size "@ + decimal(size as nat) + " < 28"@))
            } else if pos + 36 > b.len() {
                Err(ParseFault::Io(eof_text()))
            } else {
                chunks(b, next, is_rf64, fmt, Some(u64_at(b, pos + 16)))
            }
        } else if id == fmt_tag() {
            match fmt_chunk(b, pos + 8, size) {
                Err(e) => Err(e),
                Ok(f) => chunks(b, next, is_rf64, Some(f), ds64),
            }
        } else if id == data_tag() {
            data_chunk(pos + 8, size, is_rf64, fmt, ds64)
        } else {
            chunks(b, next, is_rf64, fmt, ds64)
        }
    }
}

/// Parsing after the magic.
pub open spec fn parsed_after_magic(b: Seq<u8>, is_rf64: bool) -> Outcome {
    if b.len() < 8 {
        Err(ParseFault::Io(eof_text()))
    } else if is_rf64 && u32_at(b, 4) != RF64_SIZE_SENTINEL {
        Err(ParseFault::NotWav("RF64 chunk_size field is not 0xFFFFFFFF sentinel"@))
    } else {
        parsed_after_size(b, is_rf64)
    }
}

/// Parsing after the envelope's size field.
pub open spec fn parsed_after_size(b: Seq<u8>, is_rf64: bool) -> Outcome {
    if b.len() < 12 {
        Err(ParseFault::Io(eof_text()))
    } else if b.subrange(8, 12) != wave_tag() {
        Err(
            ParseFault::NotWav(
                "form = "@ + bracketed(byte_items(b.subrange(8, 12))) + ", expected WAVE"@,
            ),
        )
    } else {
        chunks(b, 12, is_rf64, None, None)
    }
}

/// What the header of a file with contents `b` parses to.
pub open spec fn parsed(b: Seq<u8>) -> Outcome {
    if b.len() < 4 {
        Err(ParseFault::Io(eof_text()))
    } else if b.subrange(0, 4) == riff_tag() {
        parsed_after_magic(b, false)
    } else if b.subrange(0, 4) == rf64_tag() {
        parsed_after_magic(b, true)
    } else {
        Err(
            ParseFault::NotWav(
                "magic = "@ + bracketed(byte_items(b.subrange(0, 4))) + ", expected RIFF or RF64"@,
            ),
        )
    }
}

/// What is accepted from a place in the walk on.
proof fn lemma_accepted(
    b: Seq<u8>,
    pos: int,
    is_rf64: bool,
    fmt: Option<(u32, u16)>,
    ds64: Option<u64>,
)
    requires
        0 <= pos,
    ensures
        chunks(b, pos, is_rf64, fmt, ds64) matches Ok(meta) ==> meta.channels > 0
            && meta.data_bytes as int % (meta.channels * 4) == 0 && (b.len() <= u64::MAX
            ==> meta.data_offset <= b.len()),
    decreases left(b, pos),
{
    if pos + 8 <= b.len() {
        let id = b.subrange(pos, pos + 4);
        let size = u32_at(b, pos + 4);
        let next = next_chunk(pos, size);
        if id == ds64_tag() {
            lemma_accepted(b, next, is_rf64, fmt, Some(u64_at(b, pos + 16)));
        } else if id == fmt_tag() {
            if let Ok(f) = fmt_chunk(b, pos + 8, size) {
                lemma_accepted(b, next, is_rf64, Some(f), ds64);
            }
        } else if id != data_tag() {
            lemma_accepted(b, next, is_rf64, fmt, ds64);
        }
    }
}

/// A header that is accepted speaks of whole frames of at least one channel, and
/// of sample data that begins inside the file.
pub proof fn law_accepted_headers_are_sound(b: Seq<u8>)
    ensures
        parsed(b) matches Ok(meta) ==> meta.channels > 0 && meta.data_bytes as int % (meta.channels
            * 4) == 0 && (b.len() <= u64::MAX ==> meta.data_offset <= b.len()),
{
    lemma_accepted(b, 12, false, None, None);
    lemma_accepted(b, 12, true, None, None);
}

/// How far a header has been parsed.
#[derive(Debug, Clone, Copy)]
enum Stage {
    Magic,
    Size { is_rf64: bool },
    Form { is_rf64: bool },
    ChunkId { walk: Walk },
    ChunkSize { walk: Walk, id: [u8; 4] },
    Ds64Body { walk: Walk, size: u32 },
    FmtBase { walk: Walk, size: u32 },
    FmtExtension { walk: Walk, size: u32, sample_rate: u32, channels: u16 },
}

/// The chunk walk: where the current chunk begins, and what chunks before it
/// said. A position past the end of the address space is held at its end, where
/// no byte can be read either.
#[derive(Debug, Clone, Copy)]
struct Walk {
    pos: u64,
    is_rf64: bool,
    fmt: Option<(u32, u16)>,
    ds64: Option<u64>,
}

impl Walk {
    spec fn outcome(self, b: Seq<u8>) -> Outcome {
        chunks(b, self.pos as int, self.is_rf64, self.fmt, self.ds64)
    }

    /// The walk at the next chunk.
    fn after(self, size: u32) -> (r: Walk)
        ensures
            r.is_rf64 == self.is_rf64,
            r.fmt == self.fmt,
            r.ds64 == self.ds64,
            forall|b: Seq<u8>|
                b.len() <= u64::MAX ==> #[trigger] r.outcome(b) == chunks(
                    b,
                    next_chunk(self.pos as int, size),
                    r.is_rf64,
                    r.fmt,
                    r.ds64,
                ),
            r.pos == u64::MAX || r.pos >= self.pos + 8,
    {
        let step: u64 = 8 + size as u64 + (size % 2) as u64;
        Walk { pos: self.pos.saturating_add(step), ..self }
    }
}

/// A read that is answered from contents `b`: the bytes asked for, or the end of
/// the data.
pub open spec fn answers(
    b: Seq<u8>,
    offset: int,
    len: int,
    read: Result<Vec<u8>, String>,
) -> bool {
    match read {
        Ok(v) => offset + len <= b.len() && v@ == b.subrange(offset, offset + len),
        Err(e) => offset + len > b.len() && e@ == eof_text(),
    }
}

/// Does `b` hold the tag at `at`?
fn is_tag(b: &[u8], at: usize, tag: [u8; 4]) -> (r: bool)
    requires
        at + 4 <= b.len(),
    ensures
        r == (b@.subrange(at as int, at + 4) == tag@),
{
    let r: bool = b[at] == tag[0] && b[at + 1] == tag[1] && b[at + 2] == tag[2] && b[at + 3]
        == tag[3];
    proof {
        let part = b@.subrange(at as int, at + 4);
        assert(part[0] == b@[at as int] && part[1] == b@[at + 1] && part[2] == b@[at + 2]
            && part[3] == b@[at + 3]);
        if r {
            assert(part =~= tag@);
        }
    }
    r
}

/// Do the 16 bytes from `at` on name the IEEE-float subtype?
fn is_ieee_float_subtype(b: &[u8], at: usize) -> (r: bool)
    requires
        at + 16 <= b.len(),
    ensures
        r == (b@.subrange(at as int, at + 16) == ieee_float_subtype()),
{
    let guid: [u8; 16] = [
        0x03,
        0x00,
        0x00,
        0x00,
        0x00,
        0x00,
        0x10,
        0x00,
        0x80,
        0x00,
        0x00,
        0xAA,
        0x00,
        0x38,
        0x9B,
        0x71,
    ];
    proof {
        assert(guid@ =~= ieee_float_subtype());
    }
    let mut i: usize = 0;
    while i < 16
        invariant
            i <= 16,
            at + 16 <= b.len(),
            guid@ == ieee_float_subtype(),
            forall|k: int| 0 <= k < i ==> b@[at + k] == #[trigger] guid@[k],
        decreases 16 - i,
    {
        if b[at + i] != guid[i] {
            proof {
                assert(b@.subrange(at as int, at + 16)[i as int] == b@[at + i]);
            }
            return false;
        }
        i += 1;
    }
    proof {
        assert(b@.subrange(at as int, at + 16) =~= guid@);
    }
    true
}

/// A header parser that asks for bytes and is fed with them.
pub struct HeaderParser {
    stage: Stage,
}

impl HeaderParser {
    /// What parsing will come to on contents `b`.
    #[verifier::opaque]
    pub closed spec fn outcome(&self, b: Seq<u8>) -> Outcome {
        match self.stage {
            Stage::Magic => parsed(b),
            Stage::Size { is_rf64 } => parsed_after_magic(b, is_rf64),
            Stage::Form { is_rf64 } => parsed_after_size(b, is_rf64),
            Stage::ChunkId { walk } => walk.outcome(b),
            Stage::ChunkSize { walk, .. } => walk.outcome(b),
            Stage::Ds64Body { walk, .. } => walk.outcome(b),
            Stage::FmtBase { walk, .. } => walk.outcome(b),
            Stage::FmtExtension { walk, .. } => walk.outcome(b),
        }
    }

    /// Could reads of `b` have led here?
    #[verifier::opaque]
    pub closed spec fn consistent_with(&self, b: Seq<u8>) -> bool {
        match self.stage {
            Stage::Magic => true,
            Stage::Size { is_rf64 } => b.len() >= 4,
            Stage::Form { is_rf64 } => b.len() >= 8,
            Stage::ChunkId { walk } => true,
            Stage::ChunkSize { walk, id } => {
                &&& walk.pos + 4 <= b.len()
                &&& b.subrange(walk.pos as int, walk.pos + 4) == id@
            },
            Stage::Ds64Body { walk, size } => {
                &&& walk.is_rf64
                &&& size >= 28
                &&& walk.pos + 8 <= b.len()
                &&& b.subrange(walk.pos as int, walk.pos + 4) == ds64_tag()
                &&& u32_at(b, walk.pos + 4) == size
            },
            Stage::FmtBase { walk, size } => {
                &&& size >= 16
                &&& walk.pos + 8 <= b.len()
                &&& b.subrange(walk.pos as int, walk.pos + 4) == fmt_tag()
                &&& u32_at(b, walk.pos + 4) == size
            },
            Stage::FmtExtension { walk, size, sample_rate, channels } => {
                &&& size >= 40
                &&& walk.pos + 24 <= b.len()
                &&& b.subrange(walk.pos as int, walk.pos + 4) == fmt_tag()
                &&& u32_at(b, walk.pos + 4) == size
                &&& u16_at(b, walk.pos + 8) == FORMAT_TAG_EXTENSIBLE
                &&& u16_at(b, walk.pos + 22) == 32
                &&& u32_at(b, walk.pos + 12) == sample_rate
                &&& u16_at(b, walk.pos + 10) == channels
            },
        }
    }

    /// Where the next read begins.
    pub closed spec fn offset(&self) -> u64 {
        match self.stage {
            Stage::Magic => 0,
            Stage::Size { .. } => 4,
            Stage::Form { .. } => 8,
            Stage::ChunkId { walk } => walk.pos,
            Stage::ChunkSize { walk, .. } => at_most_max(walk.pos + 4),
            Stage::Ds64Body { walk, .. } => at_most_max(walk.pos + 8),
            Stage::FmtBase { walk, .. } => at_most_max(walk.pos + 8),
            Stage::FmtExtension { walk, .. } => at_most_max(walk.pos + 24),
        }
    }

    /// How many bytes the next read takes.
    pub closed spec fn len(&self) -> usize {
        match self.stage {
            Stage::Ds64Body { .. } => 28,
            Stage::FmtBase { .. } => 16,
            Stage::FmtExtension { .. } => 24,
            _ => 4,
        }
    }

    /// Is the next read that of a chunk's id?
    pub closed spec fn at_chunk_id(&self) -> bool {
        self.stage is ChunkId
    }

    spec fn pos(&self) -> int {
        match self.stage {
            Stage::Magic => 0,
            Stage::Size { .. } => 0,
            Stage::Form { .. } => 0,
            Stage::ChunkId { walk } => walk.pos as int,
            Stage::ChunkSize { walk, .. } => walk.pos as int,
            Stage::Ds64Body { walk, .. } => walk.pos as int,
            Stage::FmtBase { walk, .. } => walk.pos as int,
            Stage::FmtExtension { walk, .. } => walk.pos as int,
        }
    }

    spec fn rank(&self) -> int {
        match self.stage {
            Stage::Magic => 6,
            Stage::Size { .. } => 5,
            Stage::Form { .. } => 4,
            Stage::ChunkId { walk } => 3,
            Stage::ChunkSize { walk, .. } => 2,
            Stage::Ds64Body { walk, .. } => 1,
            Stage::FmtBase { walk, .. } => 1,
            Stage::FmtExtension { walk, .. } => 0,
        }
    }

    /// A parser at the start of a file.
    pub fn new() -> (r: HeaderParser)
        ensures
            forall|b: Seq<u8>| #[trigger] r.outcome(b) == parsed(b),
            forall|b: Seq<u8>| #[trigger] r.consistent_with(b),
    {
        proof {
            reveal(HeaderParser::outcome);
            reveal(HeaderParser::consistent_with);
        }
        HeaderParser { stage: Stage::Magic }
    }

    /// The read that the parser needs next: file offset and number of bytes.
    pub fn request(&self) -> (r: (u64, usize))
        ensures
            r.0 == self.offset(),
            r.1 == self.len(),
    {
        match self.stage {
            Stage::Magic => (0, 4),
            Stage::Size { .. } => (4, 4),
            Stage::Form { .. } => (8, 4),
            Stage::ChunkId { walk } => (walk.pos, 4),
            Stage::ChunkSize { walk, .. } => (walk.pos.saturating_add(4), 4),
            Stage::Ds64Body { walk, .. } => (walk.pos.saturating_add(8), 28),
            Stage::FmtBase { walk, .. } => (walk.pos.saturating_add(8), 16),
            Stage::FmtExtension { walk, .. } => (walk.pos.saturating_add(24), 24),
        }
    }

    /// Takes what the read that was asked for gave: the bytes, or the text of the
    /// error. Returns the result once it is known.
    pub fn feed(&mut self, read: Result<Vec<u8>, String>) -> (r: Option<
        Result<WavMeta, ParseError>,
    >)
        requires
            read matches Ok(v) ==> v@.len() == old(self).len(),
        ensures
            read matches Err(e) ==> r is Some && outcome_of(r->Some_0) == Outcome::Err(
                if old(self).at_chunk_id() {
                    ParseFault::NotWav("end of file before data chunk: "@ + e@)
                } else {
                    ParseFault::Io(e@)
                },
            ),
            forall|b: Seq<u8>|
                #![trigger old(self).consistent_with(b)]
                old(self).consistent_with(b) && b.len() <= u64::MAX && answers(
                    b,
                    old(self).offset() as int,
                    old(self).len() as int,
                    read,
                ) ==> match r {
                    Some(res) => outcome_of(res) == old(self).outcome(b),
                    None => final(self).consistent_with(b) && final(self).outcome(b) == old(
                        self,
                    ).outcome(b) && final(self).closer_than(old(self), b),
                },
    {
        match read {
            Err(e) => {
                proof {
                    assert forall|b: Seq<u8>|
                        #![trigger self.consistent_with(b)]
                        self.consistent_with(b) && b.len() <= u64::MAX && self.offset()
                            + self.len() > b.len() implies self.outcome(b) == Outcome::Err(
                        self.end_of_data(),
                    ) by {
                        self.lemma_short_read(b);
                    }
                }
                if let Stage::ChunkId { .. } = self.stage {
                    let m: String = "end of file before data chunk: ".to_owned().concat(e.as_str());
                    return Some(Err(ParseError::NotWav(m)));
                }
                Some(Err(ParseError::Io(e)))
            },
            Ok(v) => {
                let step = match self.stage {
                    Stage::Magic => on_magic(v.as_slice()),
                    Stage::Size { is_rf64 } => on_size(v.as_slice(), is_rf64),
                    Stage::Form { is_rf64 } => on_form(v.as_slice(), is_rf64),
                    Stage::ChunkId { walk } => on_chunk_id(v.as_slice(), walk),
                    Stage::ChunkSize { walk, id } => on_chunk_size(v.as_slice(), walk, id),
                    Stage::Ds64Body { walk, size } => on_ds64_body(v.as_slice(), walk, size),
                    Stage::FmtBase { walk, size } => on_fmt_base(v.as_slice(), walk, size),
                    Stage::FmtExtension { walk, size, sample_rate, channels } => on_fmt_extension(
                        v.as_slice(),
                        walk,
                        size,
                        sample_rate,
                        channels,
                    ),
                };
                match step {
                    Step::Next(stage) => {
                        self.stage = stage;
                        None
                    },
                    Step::Done(res) => Some(res),
                }
            },
        }
    }

    /// The error of a read that meets the end of the data.
    spec fn end_of_data(&self) -> ParseFault {
        if self.at_chunk_id() {
            ParseFault::NotWav("end of file before data chunk: "@ + eof_text())
        } else {
            ParseFault::Io(eof_text())
        }
    }

    proof fn lemma_short_read(&self, b: Seq<u8>)
        requires
            self.consistent_with(b),
            b.len() <= u64::MAX,
            self.offset() + self.len() > b.len(),
        ensures
            self.outcome(b) == Outcome::Err(self.end_of_data()),
    {
        reveal(HeaderParser::outcome);
        reveal(HeaderParser::consistent_with);
    }

    /// Is less of `b` ahead than at `other`?
    pub closed spec fn closer_than(&self, other: &HeaderParser, b: Seq<u8>) -> bool {
        ||| left(b, self.pos()) < left(b, other.pos())
        ||| left(b, self.pos()) == left(b, other.pos()) && 0 <= self.rank() < other.rank()
    }
}

/// What follows a read that succeeded.
enum Step {
    Next(Stage),
    Done(Result<WavMeta, ParseError>),
}

/// The step is right on all contents that hold `v` where the parser read it.
spec fn right_step(stage: Stage, v: Seq<u8>, step: Step) -> bool {
    let old = HeaderParser { stage };
    forall|b: Seq<u8>|
        #![trigger old.consistent_with(b)]
        old.consistent_with(b) && b.len() <= u64::MAX && old.offset() + old.len() <= b.len() && v
            == b.subrange(old.offset() as int, old.offset() + old.len()) ==> right_step_on(
            stage,
            step,
            b,
        )
}

spec fn right_step_on(stage: Stage, step: Step, b: Seq<u8>) -> bool {
    let old = HeaderParser { stage };
    match step {
        Step::Done(res) => outcome_of(res) == old.outcome(b),
        Step::Next(next) => {
            let new = HeaderParser { stage: next };
            &&& new.consistent_with(b)
            &&& new.outcome(b) == old.outcome(b)
            &&& new.closer_than(&old, b)
        },
    }
}

/// Integers and parts read from a part of `b` are those of `b`.
proof fn lemma_part(b: Seq<u8>, off: int, n: int)
    requires
        0 <= off,
        0 <= n,
        off + n <= b.len(),
    ensures
        forall|at: int|
            0 <= at && at + 2 <= n ==> #[trigger] u16_at(b.subrange(off, off + n), at) == u16_at(
                b,
                off + at,
            ),
        forall|at: int|
            0 <= at && at + 4 <= n ==> #[trigger] u32_at(b.subrange(off, off + n), at) == u32_at(
                b,
                off + at,
            ),
        forall|at: int|
            0 <= at && at + 8 <= n ==> #[trigger] u64_at(b.subrange(off, off + n), at) == u64_at(
                b,
                off + at,
            ),
        forall|i: int, j: int|
            0 <= i <= j <= n ==> #[trigger] b.subrange(off, off + n).subrange(i, j) == b.subrange(
                off + i,
                off + j,
            ),
{
    assert forall|i: int, j: int| 0 <= i <= j <= n implies #[trigger] b.subrange(
        off,
        off + n,
    ).subrange(i, j) == b.subrange(off + i, off + j) by {
        assert(b.subrange(off, off + n).subrange(i, j) =~= b.subrange(off + i, off + j));
    }
}

fn on_magic(v: &[u8]) -> (r: Step)
    requires
        v@.len() == 4,
    ensures
        right_step(Stage::Magic, v@, r),
{
    proof {
        reveal(HeaderParser::outcome);
        reveal(HeaderParser::consistent_with);
    }
    proof {
        assert(v@.subrange(0, 4) =~= v@);
    }
    if is_tag(v, 0, [0x52, 0x49, 0x46, 0x46]) {
        Step::Next(Stage::Size { is_rf64: false })
    } else if is_tag(v, 0, [0x52, 0x46, 0x36, 0x34]) {
        Step::Next(Stage::Size { is_rf64: true })
    } else {
        let mut m: String = "magic = ".to_owned();
        push_byte_list(&mut m, v);
        m.append(", expected RIFF or RF64");
        Step::Done(Err(ParseError::NotWav(m)))
    }
}

fn on_size(v: &[u8], is_rf64: bool) -> (r: Step)
    requires
        v@.len() == 4,
    ensures
        right_step(Stage::Size { is_rf64 }, v@, r),
{
    proof {
        reveal(HeaderParser::outcome);
        reveal(HeaderParser::consistent_with);
        assert forall|b: Seq<u8>| b.len() >= 8 && v@ == #[trigger] b.subrange(4, 8) implies u32_at(
            b,
            4,
        ) == u32_at(v@, 0) by {
            lemma_part(b, 4, 4);
        }
    }
    if is_rf64 && read_u32(v, 0) != RF64_SIZE_SENTINEL {
        Step::Done(
            Err(
                ParseError::NotWav(
                    "RF64 chunk_size field is not 0xFFFFFFFF sentinel".to_owned(),
                ),
            ),
        )
    } else {
        Step::Next(Stage::Form { is_rf64 })
    }
}

fn on_form(v: &[u8], is_rf64: bool) -> (r: Step)
    requires
        v@.len() == 4,
    ensures
        right_step(Stage::Form { is_rf64 }, v@, r),
{
    proof {
        reveal(HeaderParser::outcome);
        reveal(HeaderParser::consistent_with);
    }
    proof {
        assert(v@.subrange(0, 4) =~= v@);
    }
    if is_tag(v, 0, [0x57, 0x41, 0x56, 0x45]) {
        Step::Next(Stage::ChunkId { walk: Walk { pos: 12, is_rf64, fmt: None, ds64: None } })
    } else {
        let mut m: String = "form = ".to_owned();
        push_byte_list(&mut m, v);
        m.append(", expected WAVE");
        Step::Done(Err(ParseError::NotWav(m)))
    }
}

fn on_chunk_id(v: &[u8], walk: Walk) -> (r: Step)
    requires
        v@.len() == 4,
    ensures
        right_step(Stage::ChunkId { walk }, v@, r),
{
    proof {
        reveal(HeaderParser::outcome);
        reveal(HeaderParser::consistent_with);
    }
    let id: [u8; 4] = [v[0], v[1], v[2], v[3]];
    proof {
        assert(id@ =~= v@);
    }
    Step::Next(Stage::ChunkSize { walk, id })
}

#[verifier::rlimit(30)]
fn on_chunk_size(v: &[u8], walk: Walk, id: [u8; 4]) -> (r: Step)
    requires
        v@.len() == 4,
    ensures
        right_step(Stage::ChunkSize { walk, id }, v@, r),
{
    proof {
        reveal(HeaderParser::outcome);
        reveal(HeaderParser::consistent_with);
    }
    let size: u32 = read_u32(v, 0);
    proof {
        assert(id@.subrange(0, 4) =~= id@);
        assert forall|b: Seq<u8>|
            walk.pos + 8 <= b.len() && v@ == #[trigger] b.subrange(
                walk.pos + 4,
                walk.pos + 8,
            ) implies u32_at(b, walk.pos + 4) == size by {
            lemma_part(b, walk.pos + 4, 4);
        }
    }
    if is_tag(id.as_slice(), 0, [0x64, 0x73, 0x36, 0x34]) {
        if !walk.is_rf64 {
            Step::Done(Err(ParseError::NotWav("ds64 chunk in non-RF64 file".to_owned())))
        } else if size < 28 {
            let mut m: String = with_decimal("ds64 size ", size as u64);
            m.append(" < 28");
            Step::Done(Err(ParseError::NotWav(m)))
        } else {
            Step::Next(Stage::Ds64Body { walk, size })
        }
    } else if is_tag(id.as_slice(), 0, [0x66, 0x6D, 0x74, 0x20]) {
        if size < 16 {
            let mut m: String = with_decimal("fmt size ", size as u64);
            m.append(" < 16");
            Step::Done(Err(ParseError::NotWav(m)))
        } else {
            Step::Next(Stage::FmtBase { walk, size })
        }
    } else if is_tag(id.as_slice(), 0, [0x64, 0x61, 0x74, 0x61]) {
        Step::Done(finish(walk, size))
    } else {
        Step::Next(Stage::ChunkId { walk: walk.after(size) })
    }
}

/// The result at a `data` chunk.
fn finish(walk: Walk, size: u32) -> (r: Result<WavMeta, ParseError>)
    ensures
        walk.pos + 8 <= u64::MAX ==> outcome_of(r) == data_chunk(
            walk.pos + 8,
            size,
            walk.is_rf64,
            walk.fmt,
            walk.ds64,
        ),
{
    let data_bytes: u64 = if walk.is_rf64 && size == RF64_SIZE_SENTINEL {
        match walk.ds64 {
            Some(n) => n,
            None => {
                return Err(
                    ParseError::NotWav(
                        "RF64 data chunk uses sentinel size but no ds64 chunk seen".to_owned(),
                    ),
                );
            },
        }
    } else {
        size as u64
    };
    match walk.fmt {
        None => Err(ParseError::NotWav("no fmt chunk before data".to_owned())),
        Some((sample_rate, channels)) => {
            let frame_size: u64 = (channels as u64) * 4;
            if frame_size == 0 || data_bytes % frame_size != 0 {
                let mut m: String = with_decimal("data_bytes ", data_bytes);
                m.append(" is not a whole number of ");
                push_decimal(&mut m, channels as u64);
                m.append("-channel frames");
                Err(ParseError::NotWav(m))
            } else {
                Ok(
                    WavMeta {
                        sample_rate,
                        channels,
                        data_offset: walk.pos.saturating_add(8),
                        data_bytes,
                    },
                )
            }
        },
    }
}

fn on_ds64_body(v: &[u8], walk: Walk, size: u32) -> (r: Step)
    requires
        v@.len() == 28,
    ensures
        right_step(Stage::Ds64Body { walk, size }, v@, r),
{
    proof {
        reveal(HeaderParser::outcome);
        reveal(HeaderParser::consistent_with);
    }
    let data_size: u64 = read_u64(v, 8);
    proof {
        assert forall|b: Seq<u8>|
            walk.pos + 36 <= b.len() && v@ == #[trigger] b.subrange(
                walk.pos + 8,
                walk.pos + 36,
            ) implies u64_at(b, walk.pos + 16) == data_size by {
            lemma_part(b, walk.pos + 8, 28);
        }
    }
    let seen = Walk { ds64: Some(data_size), ..walk };
    Step::Next(Stage::ChunkId { walk: seen.after(size) })
}

/// The walk at a `fmt ` chunk.
proof fn lemma_at_fmt(walk: Walk, size: u32, b: Seq<u8>)
    requires
        walk.pos + 8 <= b.len(),
        b.subrange(walk.pos as int, walk.pos + 4) == fmt_tag(),
        u32_at(b, walk.pos + 4) == size,
    ensures
        walk.outcome(b) == match fmt_chunk(b, walk.pos + 8, size) {
            Err(e) => Outcome::Err(e),
            Ok(f) => chunks(
                b,
                next_chunk(walk.pos as int, size),
                walk.is_rf64,
                Some(f),
                walk.ds64,
            ),
        },
{
    assert(fmt_tag()[0] == 0x66);
    assert(ds64_tag()[0] == 0x64);
}

fn on_fmt_base(v: &[u8], walk: Walk, size: u32) -> (r: Step)
    requires
        v@.len() == 16,
    ensures
        right_step(Stage::FmtBase { walk, size }, v@, r),
{
    let format_tag: u16 = read_u16(v, 0);
    let channels: u16 = read_u16(v, 2);
    let sample_rate: u32 = read_u32(v, 4);
    let bits_per_sample: u16 = read_u16(v, 14);
    let ghost stage = Stage::FmtBase { walk, size };
    let r = if bits_per_sample != 32 {
        let mut m: String = with_decimal("bits_per_sample = ", bits_per_sample as u64);
        m.append(", expected 32");
        Step::Done(Err(ParseError::Unsupported(m)))
    } else if format_tag == FORMAT_TAG_IEEE_FLOAT {
        let seen = Walk { fmt: Some((sample_rate, channels)), ..walk };
        Step::Next(Stage::ChunkId { walk: seen.after(size) })
    } else if format_tag == FORMAT_TAG_EXTENSIBLE {
        if size < 40 {
            let mut m: String = with_decimal("EXTENSIBLE fmt size ", size as u64);
            m.append(" < 40");
            Step::Done(Err(ParseError::Unsupported(m)))
        } else {
            Step::Next(Stage::FmtExtension { walk, size, sample_rate, channels })
        }
    } else {
        let mut m: String = "format_tag = 0x".to_owned();
        push_hex4(&mut m, format_tag);
        m.append(", expected IEEE_FLOAT (0x0003) or EXTENSIBLE (0xFFFE)");
        Step::Done(Err(ParseError::Unsupported(m)))
    };
    proof {
        let old = HeaderParser { stage };
        assert forall|b: Seq<u8>|
            #![trigger old.consistent_with(b)]
            old.consistent_with(b) && b.len() <= u64::MAX && old.offset() + old.len() <= b.len()
                && v@ == b.subrange(old.offset() as int, old.offset() + old.len()) implies right_step_on(
            stage,
            r,
            b,
        ) by {
            reveal(HeaderParser::outcome);
            reveal(HeaderParser::consistent_with);
            lemma_part(b, walk.pos + 8, 16);
            assert(u16_at(v@, 0) == u16_at(b, walk.pos + 8));
            assert(u16_at(v@, 2) == u16_at(b, walk.pos + 10));
            assert(u32_at(v@, 4) == u32_at(b, walk.pos + 12));
            assert(u16_at(v@, 14) == u16_at(b, walk.pos + 22));
            lemma_at_fmt(walk, size, b);
        }
    }
    r
}

fn on_fmt_extension(v: &[u8], walk: Walk, size: u32, sample_rate: u32, channels: u16) -> (r: Step)
    requires
        v@.len() == 24,
    ensures
        right_step(Stage::FmtExtension { walk, size, sample_rate, channels }, v@, r),
{
    let ghost stage = Stage::FmtExtension { walk, size, sample_rate, channels };
    let r = if !is_ieee_float_subtype(v, 8) {
        Step::Done(
            Err(
                ParseError::Unsupported(
                    "EXTENSIBLE subtype is not KSDATAFORMAT_SUBTYPE_IEEE_FLOAT".to_owned(),
                ),
            ),
        )
    } else {
        let seen = Walk { fmt: Some((sample_rate, channels)), ..walk };
        Step::Next(Stage::ChunkId { walk: seen.after(size) })
    };
    proof {
        let old = HeaderParser { stage };
        assert forall|b: Seq<u8>|
            #![trigger old.consistent_with(b)]
            old.consistent_with(b) && b.len() <= u64::MAX && old.offset() + old.len() <= b.len()
                && v@ == b.subrange(old.offset() as int, old.offset() + old.len()) implies right_step_on(
            stage,
            r,
            b,
        ) by {
            reveal(HeaderParser::outcome);
            reveal(HeaderParser::consistent_with);
            lemma_part(b, walk.pos + 24, 24);
            assert(v@.subrange(8, 24) == b.subrange(walk.pos + 32, walk.pos + 48));
            lemma_at_fmt(walk, size, b);
        }
    }
    r
}

/// Parses the header at the start of `b`.
pub fn parse_header(b: &[u8]) -> (r: Result<WavMeta, ParseError>)
    ensures
        outcome_of(r) == parsed(b@),
{
    let mut parser = HeaderParser::new();
    loop
        invariant
            parser.consistent_with(b@),
            parser.outcome(b@) == parsed(b@),
        decreases left(b@, parser.pos()), parser.rank(),
    {
        let (offset, len) = parser.request();
        proof {
            assert(b@.len() == b.len());
        }
        let read: Result<Vec<u8>, String> = read_at(b, offset, len);
        if let Some(res) = parser.feed(read) {
            return res;
        }
    }
}

/// `len` bytes of `b` from `offset` on, or the error of a read that meets the
/// end.
fn read_at(b: &[u8], offset: u64, len: usize) -> (r: Result<Vec<u8>, String>)
    ensures
        answers(b@, offset as int, len as int, r),
        r matches Ok(v) ==> v@.len() == len,
{
    if offset <= b.len() as u64 && len <= b.len() - offset as usize {
        let start: usize = offset as usize;
        Ok(slice_to_vec(slice_subrange(b, start, start + len)))
    } else {
        Err("failed to fill whole buffer".to_owned())
    }
}

/// `n`, held at the largest `u64`.
pub open spec fn at_most_max(n: int) -> u64 {
    if n > u64::MAX {
        u64::MAX
    } else {
        n as u64
    }
}

/// A `fmt ` chunk at `at` with 32-bit float samples, `sample_rate` and `channels`: the
/// float format by its own tag, or by the extensible one with the float subtype.
pub open spec fn float_format_at(b: Seq<u8>, at: int, sample_rate: u32, channels: u16) -> bool {
    let size = u32_at(b, at + 4);
    &&& b.subrange(at, at + 4) == seq![0x66u8, 0x6D, 0x74, 0x20]
    &&& u16_at(b, at + 10) == channels
    &&& u32_at(b, at + 12) == sample_rate
    &&& u16_at(b, at + 22) == 32
    &&& {
        ||| u16_at(b, at + 8) == 3 && size >= 16 && at + 24 <= b.len()
        ||| u16_at(b, at + 8) == 0xFFFE && size >= 40 && at + 48 <= b.len() && b.subrange(
            at + 32,
            at + 48,
        ) == seq![
            0x03u8,
            0x00,
            0x00,
            0x00,
            0x00,
            0x00,
            0x10,
            0x00,
            0x80,
            0x00,
            0x00,
            0xAA,
            0x00,
            0x38,
            0x9B,
            0x71,
        ]
    }
}

/// The chunk at `at` is neither `ds64` nor `fmt ` nor `data`.
pub open spec fn other_chunk_at(b: Seq<u8>, at: int) -> bool {
    &&& b.subrange(at, at + 4) != seq![0x64u8, 0x73, 0x36, 0x34]
    &&& b.subrange(at, at + 4) != seq![0x66u8, 0x6D, 0x74, 0x20]
    &&& b.subrange(at, at + 4) != seq![0x64u8, 0x61, 0x74, 0x61]
}

/// The places of chunks that follow each other from 12 on, each padded to an even
/// size; the last one is the `data` chunk.
pub open spec fn chunk_places(b: Seq<u8>, at: Seq<int>) -> bool {
    let d = at.last();
    &&& at.len() > 0
    &&& at[0] == 12
    &&& forall|k: int|
        0 <= k < at.len() - 1 ==> #[trigger] at[k + 1] == at[k] + 8 + u32_at(b, at[k] + 4) + u32_at(
            b,
            at[k] + 4,
        ) % 2
    &&& 12 <= d
    &&& d + 8 <= b.len()
    &&& b.subrange(d, d + 4) == seq![0x64u8, 0x61, 0x74, 0x61]
}

/// Chunks that follow each other lie in ascending order.
proof fn lemma_places(b: Seq<u8>, at: Seq<int>, k: int)
    requires
        chunk_places(b, at),
        0 <= k < at.len(),
    ensures
        12 <= at[k] <= at.last(),
        at[k] + 8 <= b.len(),
    decreases at.len() - k,
{
    lemma_from_first(b, at, k);
    if k < at.len() - 1 {
        lemma_places(b, at, k + 1);
        assert(at[k + 1] == at[k] + 8 + u32_at(b, at[k] + 4) + u32_at(b, at[k] + 4) % 2);
    }
}

/// No chunk lies before the first.
proof fn lemma_from_first(b: Seq<u8>, at: Seq<int>, k: int)
    requires
        chunk_places(b, at),
        0 <= k < at.len(),
    ensures
        12 <= at[k],
    decreases k,
{
    if k > 0 {
        lemma_from_first(b, at, k - 1);
        assert(at[(k - 1) + 1] == at[k - 1] + 8 + u32_at(b, at[k - 1] + 4) + u32_at(
            b,
            at[k - 1] + 4,
        ) % 2);
    }
}

/// One step of the walk, at a chunk that is passed.
proof fn lemma_step(
    b: Seq<u8>,
    pos: int,
    is_rf64: bool,
    fmt: Option<(u32, u16)>,
    ds64: Option<u64>,
)
    requires
        0 <= pos,
        pos + 8 <= b.len(),
        other_chunk_at(b, pos),
    ensures
        chunks(b, pos, is_rf64, fmt, ds64) == chunks(
            b,
            pos + 8 + u32_at(b, pos + 4) + u32_at(b, pos + 4) % 2,
            is_rf64,
            fmt,
            ds64,
        ),
{
}

/// One step of the walk, at a `fmt ` chunk that is accepted.
proof fn lemma_step_at_format(
    b: Seq<u8>,
    pos: int,
    is_rf64: bool,
    fmt: Option<(u32, u16)>,
    ds64: Option<u64>,
    sample_rate: u32,
    channels: u16,
)
    requires
        0 <= pos,
        float_format_at(b, pos, sample_rate, channels),
        pos + 8 <= b.len(),
    ensures
        chunks(b, pos, is_rf64, fmt, ds64) == chunks(
            b,
            pos + 8 + u32_at(b, pos + 4) + u32_at(b, pos + 4) % 2,
            is_rf64,
            Some((sample_rate, channels)),
            ds64,
        ),
{
    let size = u32_at(b, pos + 4);
    assert(fmt_chunk(b, pos + 8, size) == Ok::<(u32, u16), ParseFault>((sample_rate, channels)));
}

/// The walk over chunks that are passed, to the last one.
proof fn lemma_walk_to_data(
    b: Seq<u8>,
    at: Seq<int>,
    k: int,
    is_rf64: bool,
    fmt: Option<(u32, u16)>,
    ds64: Option<u64>,
)
    requires
        chunk_places(b, at),
        0 <= k < at.len(),
        forall|j: int| k <= j < at.len() - 1 ==> other_chunk_at(b, #[trigger] at[j]),
    ensures
        chunks(b, at[k], is_rf64, fmt, ds64) == data_chunk(
            at.last() + 8,
            u32_at(b, at.last() + 4),
            is_rf64,
            fmt,
            ds64,
        ),
    decreases at.len() - k,
{
    lemma_places(b, at, k);
    if k < at.len() - 1 {
        assert(at[k + 1] == at[k] + 8 + u32_at(b, at[k] + 4) + u32_at(b, at[k] + 4) % 2);
        lemma_step(b, at[k], is_rf64, fmt, ds64);
        lemma_walk_to_data(b, at, k + 1, is_rf64, fmt, ds64);
    }
}

/// One step of the walk, at a `ds64` chunk that is accepted.
proof fn lemma_step_at_size(b: Seq<u8>, pos: int, fmt: Option<(u32, u16)>, ds64: Option<u64>)
    requires
        0 <= pos,
        long_size_at(b, pos, u64_at(b, pos + 16)),
    ensures
        chunks(b, pos, true, fmt, ds64) == chunks(
            b,
            pos + 8 + u32_at(b, pos + 4) + u32_at(b, pos + 4) % 2,
            true,
            fmt,
            Some(u64_at(b, pos + 16)),
        ),
{
}

/// A float format at `at`, of whatever rate and channels it holds.
pub open spec fn some_format_at(b: Seq<u8>, at: int) -> bool {
    float_format_at(b, at, u32_at(b, at + 12), u16_at(b, at + 10))
}

/// A `ds64` chunk at `at`, of whatever size it holds.
pub open spec fn some_size_at(b: Seq<u8>, at: int) -> bool {
    long_size_at(b, at, u64_at(b, at + 16))
}

/// The walk to the last chunk, where the last format stands at `f` and the last `ds64`
/// chunk, where there is one, at `g`.
proof fn lemma_walk(
    b: Seq<u8>,
    at: Seq<int>,
    k: int,
    f: int,
    g: int,
    is_rf64: bool,
    fmt: Option<(u32, u16)>,
    ds64: Option<u64>,
)
    requires
        chunk_places(b, at),
        0 <= k < at.len(),
        0 <= f < at.len() - 1,
        -1 <= g < at.len() - 1,
        g >= 0 ==> is_rf64 && some_size_at(b, at[g]),
        some_format_at(b, at[f]),
        forall|j: int|
            k <= j < at.len() - 1 ==> other_chunk_at(b, #[trigger] at[j]) || (j <= f
                && some_format_at(b, at[j])) || (j <= g && some_size_at(b, at[j])),
        k > f ==> fmt == Some((u32_at(b, at[f] + 12), u16_at(b, at[f] + 10))),
        k > g >= 0 ==> ds64 == Some(u64_at(b, at[g] + 16)),
        g < 0 ==> ds64 is None,
    ensures
        chunks(b, at[k], is_rf64, fmt, ds64) == data_chunk(
            at.last() + 8,
            u32_at(b, at.last() + 4),
            is_rf64,
            Some((u32_at(b, at[f] + 12), u16_at(b, at[f] + 10))),
            if g >= 0 {
                Some(u64_at(b, at[g] + 16))
            } else {
                None
            },
        ),
    decreases at.len() - k,
{
    lemma_places(b, at, k);
    if k < at.len() - 1 {
        let pos = at[k];
        assert(at[k + 1] == pos + 8 + u32_at(b, pos + 4) + u32_at(b, pos + 4) % 2);
        if k <= f && some_format_at(b, pos) {
            let here = (u32_at(b, pos + 12), u16_at(b, pos + 10));
            lemma_not_both(b, pos);
            lemma_step_at_format(b, pos, is_rf64, fmt, ds64, here.0, here.1);
            lemma_walk(b, at, k + 1, f, g, is_rf64, Some(here), ds64);
        } else if k <= g && some_size_at(b, pos) {
            lemma_step_at_size(b, pos, fmt, ds64);
            lemma_walk(b, at, k + 1, f, g, is_rf64, fmt, Some(u64_at(b, pos + 16)));
        } else {
            lemma_step(b, pos, is_rf64, fmt, ds64);
            lemma_walk(b, at, k + 1, f, g, is_rf64, fmt, ds64);
        }
    } else {
        assert(chunks(b, at[k], is_rf64, fmt, ds64) == data_chunk(
            at[k] + 8,
            u32_at(b, at[k] + 4),
            is_rf64,
            fmt,
            ds64,
        )) by {
            lemma_walk_to_data(b, at, k, is_rf64, fmt, ds64);
        }
    }
}

/// No chunk is both a format and a `ds64` chunk.
proof fn lemma_not_both(b: Seq<u8>, at: int)
    requires
        some_format_at(b, at),
    ensures
        !some_size_at(b, at),
{
    assert(fmt_tag()[0] == 0x66);
    assert(ds64_tag()[0] == 0x64);
    assert(b.subrange(at, at + 4) == fmt_tag());
}

/// A RIFF file with a float format, by its own tag or by the extensible one, before a
/// `data` chunk of whole frames parses to exactly the rate and the channels that the
/// format holds and the place and the size of the `data` chunk, whatever other chunks
/// stand between. Of several formats the last counts.
pub proof fn law_float_files_parse(
    b: Seq<u8>,
    at: Seq<int>,
    f: int,
    sample_rate: u32,
    channels: u16,
)
    requires
        b.len() <= 0xFFFF_FFFF_FFFF_FFFF,
        b.subrange(0, 4) == seq![0x52u8, 0x49, 0x46, 0x46],
        b.subrange(8, 12) == seq![0x57u8, 0x41, 0x56, 0x45],
        chunk_places(b, at),
        0 <= f < at.len() - 1,
        forall|j: int|
            0 <= j < at.len() - 1 && j != f ==> other_chunk_at(b, #[trigger] at[j]) || (j < f
                && some_format_at(b, at[j])),
        float_format_at(b, at[f], sample_rate, channels),
        channels > 0,
        u32_at(b, at.last() + 4) as int % (channels * 4) == 0,
    ensures
        parsed(b) matches Ok(meta) && meta.sample_rate == sample_rate && meta.channels == channels
            && meta.data_offset == at.last() + 8 && meta.data_bytes == u32_at(b, at.last() + 4),
{
    lemma_walk(b, at, 0, f, -1, false, None, None);
}

/// An RF64 file with a `ds64` chunk, a float format and a `data` chunk that defers to
/// the `ds64` chunk parses to exactly the rate and the channels that the format holds,
/// and to the 64-bit size that the `ds64` chunk holds; a `data` chunk with a size of its
/// own keeps it. Of several formats, and of several `ds64` chunks, the last counts.
pub proof fn law_long_float_files_parse(
    b: Seq<u8>,
    at: Seq<int>,
    f: int,
    g: int,
    sample_rate: u32,
    channels: u16,
    data_size: u64,
)
    requires
        b.len() <= 0xFFFF_FFFF_FFFF_FFFF,
        b.subrange(0, 4) == seq![0x52u8, 0x46, 0x36, 0x34],
        u32_at(b, 4) == 0xFFFF_FFFF,
        b.subrange(8, 12) == seq![0x57u8, 0x41, 0x56, 0x45],
        chunk_places(b, at),
        0 <= f < at.len() - 1,
        0 <= g < at.len() - 1,
        forall|j: int|
            0 <= j < at.len() - 1 ==> other_chunk_at(b, #[trigger] at[j]) || (j <= f
                && some_format_at(b, at[j])) || (j <= g && some_size_at(b, at[j])),
        float_format_at(b, at[f], sample_rate, channels),
        long_size_at(b, at[g], data_size),
        channels > 0,
        u32_at(b, at.last() + 4) == 0xFFFF_FFFF ==> data_size as int % (channels * 4) == 0,
        u32_at(b, at.last() + 4) != 0xFFFF_FFFF ==> u32_at(b, at.last() + 4) as int % (channels * 4)
            == 0,
    ensures
        parsed(b) matches Ok(meta) && meta.sample_rate == sample_rate && meta.channels == channels
            && meta.data_offset == at.last() + 8 && (u32_at(b, at.last() + 4) == 0xFFFF_FFFF
            ==> meta.data_bytes == data_size) && (u32_at(b, at.last() + 4) != 0xFFFF_FFFF
            ==> meta.data_bytes == u32_at(b, at.last() + 4)),
{
    lemma_walk(b, at, 0, f, g, true, None, None);
    assert(parsed(b) == chunks(b, 12, true, None, None)) by {
        assert(rf64_tag()[1] == 0x46 && riff_tag()[1] == 0x49);
    }
}

/// A float format with this rate and these channels stands in the file.
#[verifier::opaque]
spec fn holds_format(b: Seq<u8>, sample_rate: u32, channels: u16) -> bool {
    exists|at: int| 12 <= at && #[trigger] float_format_at(b, at, sample_rate, channels)
}

/// A `fmt ` chunk that is accepted is a float format.
proof fn lemma_format_found(b: Seq<u8>, pos: int)
    requires
        12 <= pos,
        pos + 8 <= b.len(),
        b.subrange(pos, pos + 4) == fmt_tag(),
    ensures
        fmt_chunk(b, pos + 8, u32_at(b, pos + 4)) matches Ok(f) ==> holds_format(b, f.0, f.1),
{
    if let Ok(f) = fmt_chunk(b, pos + 8, u32_at(b, pos + 4)) {
        assert(float_format_at(b, pos, f.0, f.1));
        reveal(holds_format);
    }
}

/// The rate and the channels that are accepted stand in a float format in the file.
proof fn lemma_accepted_format(
    b: Seq<u8>,
    pos: int,
    is_rf64: bool,
    fmt: Option<(u32, u16)>,
    ds64: Option<u64>,
)
    requires
        12 <= pos,
        fmt is Some ==> holds_format(b, fmt->Some_0.0, fmt->Some_0.1),
    ensures
        chunks(b, pos, is_rf64, fmt, ds64) matches Ok(meta) ==> holds_format(
            b,
            meta.sample_rate,
            meta.channels,
        ),
    decreases left(b, pos),
{
    if pos + 8 <= b.len() {
        let id = b.subrange(pos, pos + 4);
        let size = u32_at(b, pos + 4);
        let next = next_chunk(pos, size);
        if id == ds64_tag() {
            lemma_accepted_format(b, next, is_rf64, fmt, Some(u64_at(b, pos + 16)));
        } else if id == fmt_tag() {
            lemma_format_found(b, pos);
            if let Ok(f) = fmt_chunk(b, pos + 8, size) {
                lemma_accepted_format(b, next, is_rf64, Some(f), ds64);
            }
        } else if id != data_tag() {
            lemma_accepted_format(b, next, is_rf64, fmt, ds64);
        }
    }
}

/// A `ds64` chunk with this size of the samples stands in the file.
#[verifier::opaque]
spec fn holds_size(b: Seq<u8>, data_size: u64) -> bool {
    exists|at: int| 12 <= at && #[trigger] long_size_at(b, at, data_size)
}

/// A `ds64` chunk at `at` that holds the 64-bit size of the samples.
pub open spec fn long_size_at(b: Seq<u8>, at: int, data_size: u64) -> bool {
    &&& at + 36 <= b.len()
    &&& b.subrange(at, at + 4) == seq![0x64u8, 0x73, 0x36, 0x34]
    &&& u32_at(b, at + 4) >= 28
    &&& u64_at(b, at + 16) == data_size
}

/// The `data` chunk that is accepted stands before the first sample.
proof fn lemma_accepted_data(
    b: Seq<u8>,
    pos: int,
    is_rf64: bool,
    fmt: Option<(u32, u16)>,
    ds64: Option<u64>,
)
    requires
        12 <= pos,
        b.len() <= u64::MAX,
        ds64 is Some ==> holds_size(b, ds64->Some_0),
    ensures
        chunks(b, pos, is_rf64, fmt, ds64) matches Ok(meta) ==> meta.data_offset >= 20 && b.subrange(
            meta.data_offset - 8,
            meta.data_offset - 4,
        ) == data_tag() && (meta.data_bytes == u32_at(b, meta.data_offset - 4) || is_rf64 && u32_at(
            b,
            meta.data_offset - 4,
        ) == 0xFFFF_FFFF && holds_size(b, meta.data_bytes)),
    decreases left(b, pos),
{
    if pos + 8 <= b.len() {
        let id = b.subrange(pos, pos + 4);
        let size = u32_at(b, pos + 4);
        let next = next_chunk(pos, size);
        if id == ds64_tag() {
            if is_rf64 && size >= 28 && pos + 36 <= b.len() {
                assert(long_size_at(b, pos, u64_at(b, pos + 16)));
                assert(holds_size(b, u64_at(b, pos + 16))) by {
                    reveal(holds_size);
                }
                lemma_accepted_data(b, next, is_rf64, fmt, Some(u64_at(b, pos + 16)));
            }
        } else if id == fmt_tag() {
            if let Ok(f) = fmt_chunk(b, pos + 8, size) {
                lemma_accepted_data(b, next, is_rf64, Some(f), ds64);
            }
        } else if id != data_tag() {
            lemma_accepted_data(b, next, is_rf64, fmt, ds64);
        }
    }
}

/// Only float files are accepted: whatever parses begins with `RIFF` or `RF64` and
/// `WAVE`, holds the rate and the channels it parses to in a 32-bit float format, and
/// has its `data` chunk right before the first sample; the size it parses to stands in
/// that chunk, or in a `ds64` chunk that this one defers to.
pub proof fn law_only_float_files_parse(b: Seq<u8>)
    requires
        b.len() <= 0xFFFF_FFFF_FFFF_FFFF,
        parsed(b) is Ok,
    ensures
        ({
            let meta = parsed(b)->Ok_0;
            let is_rf64 = b.subrange(0, 4) == seq![0x52u8, 0x46, 0x36, 0x34];
            &&& is_rf64 || b.subrange(0, 4) == seq![0x52u8, 0x49, 0x46, 0x46]
            &&& is_rf64 ==> u32_at(b, 4) == 0xFFFF_FFFF
            &&& b.subrange(8, 12) == seq![0x57u8, 0x41, 0x56, 0x45]
            &&& exists|at: int|
                12 <= at && float_format_at(b, at, meta.sample_rate, meta.channels)
            &&& meta.data_offset >= 20
            &&& b.subrange(meta.data_offset - 8, meta.data_offset - 4) == seq![
                0x64u8,
                0x61,
                0x74,
                0x61,
            ]
            &&& meta.data_bytes == u32_at(b, meta.data_offset - 4) || is_rf64 && u32_at(
                b,
                meta.data_offset - 4,
            ) == 0xFFFF_FFFF && exists|at: int|
                12 <= at && #[trigger] long_size_at(b, at, meta.data_bytes)
        }),
{
    lemma_accepted_format(b, 12, false, None, None);
    lemma_accepted_format(b, 12, true, None, None);
    lemma_accepted_data(b, 12, false, None, None);
    lemma_accepted_data(b, 12, true, None, None);
    reveal(holds_format);
    reveal(holds_size);
}

/// What is no float file is refused, and how: a file that ends too early as unreadable,
/// one without the letters of a WAVE file as none, and one with another format as not
/// supported.
pub proof fn law_other_files_are_refused(b: Seq<u8>)
    ensures
        b.len() < 4 ==> parsed(b) is Err && parsed(b)->Err_0 is Io,
        b.len() >= 4 && b.subrange(0, 4) != seq![0x52u8, 0x49, 0x46, 0x46] && b.subrange(0, 4)
            != seq![0x52u8, 0x46, 0x36, 0x34] ==> parsed(b) is Err && parsed(b)->Err_0 is NotWav,
        b.len() >= 12 && b.subrange(8, 12) != seq![0x57u8, 0x41, 0x56, 0x45] ==> parsed(b) is Err
            && parsed(b)->Err_0 is NotWav,
        b.len() >= 8 && b.subrange(0, 4) == seq![0x52u8, 0x46, 0x36, 0x34] && u32_at(b, 4)
            != 0xFFFF_FFFF ==> parsed(b) is Err && parsed(b)->Err_0 is NotWav,
{
    assert(rf64_tag() != riff_tag()) by {
        assert(rf64_tag()[1] == 0x46 && riff_tag()[1] == 0x49);
    }
}

/// What is refused of a file whose first chunk is its format: a format that is too
/// short is none; one of another sample size or another kind of samples, and an
/// extensible one of another subtype, is not supported.
pub proof fn law_other_formats_are_refused(b: Seq<u8>)
    requires
        b.len() >= 60,
        b.subrange(0, 4) == seq![0x52u8, 0x49, 0x46, 0x46],
        b.subrange(8, 12) == seq![0x57u8, 0x41, 0x56, 0x45],
        b.subrange(12, 16) == seq![0x66u8, 0x6D, 0x74, 0x20],
    ensures
        u32_at(b, 16) < 16 ==> parsed(b) is Err && parsed(b)->Err_0 is NotWav,
        u32_at(b, 16) >= 16 && u16_at(b, 34) != 32 ==> parsed(b) is Err
            && parsed(b)->Err_0 is Unsupported,
        u32_at(b, 16) >= 16 && u16_at(b, 20) != 3 && u16_at(b, 20) != 0xFFFE ==> parsed(b) is Err
            && parsed(b)->Err_0 is Unsupported,
        u32_at(b, 16) >= 16 && u16_at(b, 20) == 0xFFFE && u32_at(b, 16) < 40 ==> parsed(b) is Err
            && parsed(b)->Err_0 is Unsupported,
        u32_at(b, 16) >= 40 && u16_at(b, 20) == 0xFFFE && b.subrange(44, 60)
            != ieee_float_subtype() ==> parsed(b) is Err && parsed(b)->Err_0 is Unsupported,
{
    lemma_first_format(b);
    assert(parsed(b) == chunks(b, 12, false, None, None)) by {
        assert(b.subrange(0, 4) == riff_tag());
    }
}

/// A first format chunk that is refused ends the walk.
proof fn lemma_first_format(b: Seq<u8>)
    requires
        b.len() >= 60,
        b.subrange(12, 16) == fmt_tag(),
    ensures
        fmt_chunk(b, 20, u32_at(b, 16)) matches Err(e) ==> chunks(b, 12, false, None, None)
            == Outcome::Err(e),
{
    assert(fmt_tag() != ds64_tag()) by {
        assert(fmt_tag()[0] == 0x66 && ds64_tag()[0] == 0x64);
    }
}

/// A file whose `data` chunk comes without a format before it is none, nor is a plain
/// one that begins with a `ds64` chunk, nor one that ends before its `data` chunk.
pub proof fn law_files_without_format_or_data_are_refused(b: Seq<u8>, at: Seq<int>)
    requires
        b.len() >= 20,
        b.subrange(0, 4) == seq![0x52u8, 0x49, 0x46, 0x46],
        b.subrange(8, 12) == seq![0x57u8, 0x41, 0x56, 0x45],
    ensures
        chunk_places(b, at) && (forall|j: int|
            0 <= j < at.len() - 1 ==> other_chunk_at(b, #[trigger] at[j])) ==> parsed(b) is Err
            && parsed(b)->Err_0 is NotWav,
        b.subrange(12, 16) == seq![0x64u8, 0x73, 0x36, 0x34] ==> parsed(b) is Err
            && parsed(b)->Err_0 is NotWav,
        other_chunk_at(b, 12) && 20 + u32_at(b, 16) + u32_at(b, 16) % 2 + 4 > b.len() ==> parsed(
            b,
        ) is Err && parsed(b)->Err_0 is NotWav,
{
    assert(parsed(b) == chunks(b, 12, false, None, None)) by {
        assert(b.subrange(0, 4) == riff_tag());
    }
    if chunk_places(b, at) && (forall|j: int|
        0 <= j < at.len() - 1 ==> other_chunk_at(b, #[trigger] at[j])) {
        lemma_walk_to_data(b, at, 0, false, None, None);
    }
    if other_chunk_at(b, 12) {
        lemma_step(b, 12, false, None, None);
    }
}

/// A RIFF file of an extensible format with 32-bit IEEE-float samples and a `data` chunk
/// of whole frames behind it parses to the rate and the channels that were written into
/// the format, for every rate of 32 bits.
pub proof fn law_extensible_files_keep_their_rate(
    b: Seq<u8>,
    size: u32,
    sample_rate: u32,
    channels: u16,
    data_size: u32,
)
    requires
        b.len() <= 0xFFFF_FFFF_FFFF_FFFF,
        size >= 40,
        28 + size + size % 2 <= b.len(),
        b.subrange(0, 4) == seq![0x52u8, 0x49, 0x46, 0x46],
        b.subrange(8, 12) == seq![0x57u8, 0x41, 0x56, 0x45],
        b.subrange(12, 16) == seq![0x66u8, 0x6D, 0x74, 0x20],
        b.subrange(16, 20) == le32(size),
        b.subrange(20, 22) == le16(0xFFFE),
        b.subrange(22, 24) == le16(channels),
        b.subrange(24, 28) == le32(sample_rate),
        b.subrange(34, 36) == le16(32),
        b.subrange(44, 60) == seq![
            0x03u8,
            0x00,
            0x00,
            0x00,
            0x00,
            0x00,
            0x10,
            0x00,
            0x80,
            0x00,
            0x00,
            0xAA,
            0x00,
            0x38,
            0x9B,
            0x71,
        ],
        b.subrange(20 + size + size % 2, 24 + size + size % 2) == seq![0x64u8, 0x61, 0x74, 0x61],
        b.subrange(24 + size + size % 2, 28 + size + size % 2) == le32(data_size),
        channels > 0,
        data_size as int % (channels * 4) == 0,
    ensures
        parsed(b) matches Ok(meta) && meta.sample_rate == sample_rate && meta.channels == channels
            && meta.data_offset == 28 + size + size % 2 && meta.data_bytes == data_size,
{
    let d = 20 + size + size % 2;
    let at = seq![12int, d];
    law_u32_reads_back(b, 16, size);
    law_u16_reads_back(b, 20, 0xFFFE);
    law_u16_reads_back(b, 22, channels);
    law_u32_reads_back(b, 24, sample_rate);
    law_u16_reads_back(b, 34, 32);
    law_u32_reads_back(b, d + 4, data_size);
    assert(at.last() == d);
    assert forall|k: int| 0 <= k < at.len() - 1 implies #[trigger] at[k + 1] == at[k] + 8 + u32_at(
        b,
        at[k] + 4,
    ) + u32_at(b, at[k] + 4) % 2 by {
        assert(k == 0);
    }
    law_float_files_parse(b, at, 0, sample_rate, channels);
}

/// What parsing comes to keeps what was read, and of an error its kind and its words.
pub proof fn law_outcomes_keep_their_kind(r: Result<WavMeta, ParseError>)
    ensures
        r matches Ok(meta) ==> outcome_of(r) == Outcome::Ok(meta),
        r matches Err(ParseError::Io(m)) ==> outcome_of(r) == Outcome::Err(ParseFault::Io(m@)),
        r matches Err(ParseError::NotWav(m)) ==> outcome_of(r) == Outcome::Err(
            ParseFault::NotWav(m@),
        ),
        r matches Err(ParseError::Unsupported(m)) ==> outcome_of(r) == Outcome::Err(
            ParseFault::Unsupported(m@),
        ),
{
}

} // verus!
