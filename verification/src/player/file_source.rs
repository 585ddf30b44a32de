//! Streaming samples from a WAV / RF64 file.
//!
//! [`FileSource`] knows the format and the place in the file; the reads and seeks
//! themselves are done by whoever holds the file.
use super::source::SeekError;
use super::wav::{ParseError, WavMeta};
use crate::frames::smaller;
use crate::samples::{decode_samples, samples_at};
use vstd::arithmetic::div_mod::{lemma_fundamental_div_mod, lemma_mod_multiples_basic};
use vstd::prelude::*;
use vstd::string::*;

verus! {

/// Why a file could not be opened as a source.
#[derive(Debug)]
pub enum OpenFileError {
    Io(String),
    Parse(ParseError),
}

impl OpenFileError {
    /// The text of the error.
    pub open spec fn text(&self) -> Seq<char> {
        match self {
            OpenFileError::Io(m) => "io: "@ + m@,
            OpenFileError::Parse(e) => "not a usable WAV: "@ + e.text(),
        }
    }

    /// The text of the error.
    pub fn message(&self) -> (r: String)
        ensures
            r@ == self.text(),
    {
        match self {
            OpenFileError::Io(m) => "io: ".to_owned().concat(m.as_str()),
            OpenFileError::Parse(e) => {
                let m: String = e.message();
                "not a usable WAV: ".to_owned().concat(m.as_str())
            },
        }
    }
}

/// A file of known format, and the frame that is read next.
#[derive(Debug)]
pub struct FileSource {
    meta: WavMeta,
    cursor: u64,
    total_frames: u64,
}

/// What a file source knows.
pub struct FileCursor {
    pub meta: WavMeta,
    pub cursor: u64,
}

impl View for FileSource {
    type V = FileCursor;

    closed spec fn view(&self) -> FileCursor {
        FileCursor { meta: self.meta, cursor: self.cursor }
    }
}

impl FileCursor {
    /// Frames from the cursor on.
    pub open spec fn left(self) -> int {
        self.meta.frames() - self.cursor
    }

    /// The file offset of a frame.
    pub open spec fn offset_of(self, frame: int) -> int {
        self.meta.data_offset + frame * (self.meta.channels * 4)
    }

    /// The samples that a pull into `room` places asks the file for: whole
    /// frames, as many as fit and are left.
    pub open spec fn wanted(self, room: nat) -> int {
        smaller(room as int / self.meta.channels as int, self.left()) * self.meta.channels
    }
}

impl FileSource {
    /// The cursor stands in the file, and frames have at least one channel.
    pub closed spec fn wf(&self) -> bool {
        &&& self.meta.channels > 0
        &&& self.total_frames == self.meta.frames()
        &&& self.cursor <= self.total_frames
    }

    /// Opens a source, given what opening the file and parsing its header came to.
    /// It stands at the first frame.
    pub fn open(parsed: Result<WavMeta, OpenFileError>) -> (r: Result<FileSource, OpenFileError>)
        requires
            parsed matches Ok(meta) ==> meta.channels > 0,
        ensures
            match parsed {
                Err(e) => r matches Err(f) && f == e,
                Ok(meta) => r matches Ok(s) && s.wf() && s@ == (FileCursor { meta, cursor: 0 }),
            },
    {
        match parsed {
            Err(e) => Err(e),
            Ok(meta) => {
                let total_frames: u64 = meta.frame_count();
                Ok(FileSource { meta, cursor: 0, total_frames })
            },
        }
    }

    /// How many bytes the next pull into `room` places reads, from the current
    /// place in the file.
    pub fn pull_request(&self, room: usize) -> (r: usize)
        requires
            self.wf(),
            4 * room <= usize::MAX,
        ensures
            r == 4 * self@.wanted(room as nat),
    {
        let n: usize = self.wanted_samples(room);
        proof {
            self.lemma_wanted(room as nat);
        }
        4 * n
    }

    proof fn lemma_wanted(&self, room: nat)
        requires
            self.wf(),
        ensures
            0 <= self@.wanted(room) <= room,
            self@.wanted(room) % self.meta.channels as int == 0,
            self@.wanted(room) / self.meta.channels as int == smaller(
                room as int / self.meta.channels as int,
                self@.left(),
            ),
    {
        let c = self.meta.channels as int;
        let f = smaller(room as int / c, self@.left());
        lemma_fundamental_div_mod(room as int, c);
        assert(0 <= room as int / c) by (nonlinear_arith)
            requires
                c > 0,
                room >= 0,
        ;
        assert(f * c <= (room as int / c) * c) by (nonlinear_arith)
            requires
                f <= room as int / c,
                c > 0,
        ;
        assert((room as int / c) * c == c * (room as int / c)) by (nonlinear_arith);
        assert(0 <= f * c) by (nonlinear_arith)
            requires
                f >= 0,
                c > 0,
        ;
        assert(f * c / c == f) by (nonlinear_arith)
            requires
                c > 0,
        ;
        lemma_mod_multiples_basic(f, c);
    }

    fn wanted_samples(&self, room: usize) -> (r: usize)
        requires
            self.wf(),
        ensures
            r == self@.wanted(room as nat),
    {
        let ch: usize = self.meta.channels as usize;
        let max_frames: usize = room / ch;
        let left: u64 = self.total_frames - self.cursor;
        let frames: usize = if (max_frames as u64) < left {
            max_frames
        } else {
            left as usize
        };
        proof {
            self.lemma_wanted(room as nat);
        }
        frames * ch
    }

    /// Decodes what the read of [`FileSource::pull_request`] gave into `dst`, and
    /// moves on by the whole frames in it. Fewer bytes than asked for mean that
    /// the file ends early. Returns the number of frames; zero means end of
    /// source.
    pub fn pull(&mut self, bytes: &[u8], dst: &mut [u32]) -> (n: usize)
        requires
            old(self).wf(),
        ensures
            final(self).wf(),
            ({
                let w = smaller(bytes@.len() as int / 4, old(self)@.wanted(old(dst)@.len()));
                &&& n == w / old(self)@.meta.channels as int
                &&& final(dst)@ == samples_at(bytes@, 0, w as nat) + old(dst)@.skip(w)
                &&& final(self)@ == (FileCursor {
                    cursor: (old(self)@.cursor + n) as u64,
                    ..old(self)@
                })
                &&& old(self)@.cursor + n <= old(self)@.meta.frames()
            }),
    {
        let limit: usize = self.wanted_samples(dst.len());
        proof {
            self.lemma_wanted(dst@.len());
        }
        let written: usize = decode_samples(bytes, dst, limit);
        let ch: usize = self.meta.channels as usize;
        let frames: usize = written / ch;
        proof {
            let c = ch as int;
            assert(written as int / c <= limit as int / c) by (nonlinear_arith)
                requires
                    0 <= written <= limit,
                    c > 0,
            ;
        }
        self.cursor = self.cursor + frames as u64;
        frames
    }

    /// The file offset of `frame`, where the source has it. The frame behind the
    /// last means end of source.
    pub fn seek_offset(&self, frame: u64) -> (r: Result<u64, SeekError>)
        requires
            self.wf(),
            frame <= self@.meta.frames() ==> self@.offset_of(frame as int) <= u64::MAX,
        ensures
            r is Ok <==> frame <= self@.meta.frames(),
            r matches Ok(offset) ==> offset == self@.offset_of(frame as int),
            r matches Err(e) ==> e == (SeekError::OutOfBounds {
                requested: frame,
                max: self@.meta.frames(),
            }),
    {
        if frame > self.total_frames {
            return Err(SeekError::OutOfBounds { requested: frame, max: self.total_frames });
        }
        let frame_size: u64 = (self.meta.channels as u64) * 4;
        proof {
            assert(0 <= frame * (self.meta.channels * 4)) by (nonlinear_arith);
        }
        Ok(self.meta.data_offset + frame * frame_size)
    }

    /// Moves to `frame`, given what seeking in the file answered.
    pub fn seek(&mut self, frame: u64, moved: Result<(), String>) -> (r: Result<(), SeekError>)
        requires
            old(self).wf(),
        ensures
            final(self).wf(),
            r is Ok <==> frame <= old(self)@.meta.frames() && moved is Ok,
            r is Ok ==> final(self)@ == (FileCursor { cursor: frame, ..old(self)@ }),
            r matches Err(e) ==> *final(self) == *old(self) && e == if frame
                > old(self)@.meta.frames() {
                SeekError::OutOfBounds { requested: frame, max: old(self)@.meta.frames() }
            } else {
                SeekError::Io(moved->Err_0)
            },
    {
        if frame > self.total_frames {
            return Err(SeekError::OutOfBounds { requested: frame, max: self.total_frames });
        }
        match moved {
            Err(m) => Err(SeekError::Io(m)),
            Ok(_) => {
                self.cursor = frame;
                Ok(())
            },
        }
    }

    /// Total frame count.
    pub fn duration_frames(&self) -> (r: Option<u64>)
        requires
            self.wf(),
        ensures
            r == Some(self@.meta.frames()),
    {
        Some(self.total_frames)
    }

    /// Sample rate in Hz.
    pub fn sample_rate(&self) -> (r: u32)
        ensures
            r == self@.meta.sample_rate,
    {
        self.meta.sample_rate
    }

    /// Channels per frame.
    pub fn channels(&self) -> (r: u16)
        ensures
            r == self@.meta.channels,
    {
        self.meta.channels
    }
}

/// Samples decoded from bytes of a file are the file's samples at the place where
/// the bytes were read.
pub proof fn law_pull_reads_the_file(file: Seq<u8>, offset: int, n: nat)
    requires
        0 <= offset,
        offset + 4 * n <= file.len(),
    ensures
        samples_at(file.subrange(offset, offset + 4 * n), 0, n) == samples_at(file, offset, n),
{
    let bytes = file.subrange(offset, offset + 4 * n);
    assert forall|i: int| 0 <= i < n implies #[trigger] samples_at(bytes, 0, n)[i] == samples_at(
        file,
        offset,
        n,
    )[i] by {
        assert(bytes[4 * i] == file[offset + 4 * i]);
        assert(bytes[4 * i + 1] == file[offset + 4 * i + 1]);
        assert(bytes[4 * i + 2] == file[offset + 4 * i + 2]);
        assert(bytes[4 * i + 3] == file[offset + 4 * i + 3]);
    }
    assert(samples_at(bytes, 0, n) =~= samples_at(file, offset, n));
}

/// A pull asks the file for whole frames: no more than there is room for or than are
/// left, and one frame more would be too many.
pub proof fn law_pull_asks_for_what_is_left(c: FileCursor, room: nat)
    requires
        c.meta.channels > 0,
        c.cursor <= c.meta.frames(),
    ensures
        0 <= c.wanted(room) <= room,
        c.wanted(room) % (c.meta.channels as int) == 0,
        c.wanted(room) <= (c.meta.frames() - c.cursor) * c.meta.channels,
        c.wanted(room) + c.meta.channels > room || c.wanted(room) == (c.meta.frames() - c.cursor)
            * c.meta.channels,
{
    let ch = c.meta.channels as int;
    let q = room as int / ch;
    let left = c.meta.frames() - c.cursor;
    let f = smaller(q, left);
    lemma_fundamental_div_mod(room as int, ch);
    lemma_mod_multiples_basic(f, ch);
    assert(0 <= q) by (nonlinear_arith)
        requires
            ch > 0,
            room >= 0,
            q == room as int / ch,
    ;
    assert(q * ch == ch * q) by (nonlinear_arith);
    assert(0 <= f * ch && f * ch <= q * ch && f * ch <= left * ch) by (nonlinear_arith)
        requires
            0 <= f <= q,
            f <= left,
            ch > 0,
    ;
}

/// Frames lie behind each other from the first sample's place on, four bytes for each
/// channel.
pub proof fn law_frames_lie_behind_each_other(c: FileCursor, frame: int)
    ensures
        c.offset_of(0) == c.meta.data_offset,
        c.offset_of(frame + 1) == c.offset_of(frame) + 4 * c.meta.channels,
{
    let size = c.meta.channels * 4;
    assert((frame + 1) * size == frame * size + size) by (nonlinear_arith);
}

/// The frames of a file are the whole ones in its sample data, at four bytes for each
/// channel; without channels there are none.
pub proof fn law_frames_fill_the_data(meta: WavMeta)
    ensures
        meta.channels == 0 ==> meta.frames() == 0,
        meta.channels > 0 ==> meta.frames() * (4 * meta.channels) <= meta.data_bytes < (
        meta.frames() + 1) * (4 * meta.channels),
{
    if meta.channels > 0 {
        let size = 4 * meta.channels;
        let n = meta.data_bytes as int / size;
        lemma_fundamental_div_mod(meta.data_bytes as int, size);
        assert(0 <= n <= meta.data_bytes) by (nonlinear_arith)
            requires
                size >= 1,
                n == meta.data_bytes as int / size,
        ;
        assert(n * size == size * n && (n + 1) * size == size * n + size) by (nonlinear_arith);
    }
}

} // verus!
