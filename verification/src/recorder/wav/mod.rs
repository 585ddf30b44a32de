//! 32-bit float WAV writer with in-place RF64 promotion.
//!
//! [`WavWriter`] decides which bytes go where; whoever owns the file performs
//! the writes it hands out, in order. The writer reserves a `ds64`-shaped chunk
//! when a file is created, so promotion is a 44-byte patch with no data move.
pub mod header;
pub mod rf64;

use self::header::{
    build_initial_header, format_fits, header_image, initial_header, junk_chunk, lemma_header_len,
    lemma_header_says, overwritten, riff_chunk_size, riff_tag, HEADER_SIZE,
};
use self::rf64::{
    build_ds64_chunk, build_rf64_marker, ds64_chunk, rf64_marker, rf64_tag, RF64_SIZE_SENTINEL,
};
use crate::bytes::{
    law_u32_reads_back, law_u64_reads_back, le32, le64, push_u32, u16_at, u32_at, u64_at,
};
use crate::samples::{
    encode_samples, law_sample_bytes_concatenate, law_samples_read_back, sample_bytes, samples_at,
};
use vstd::arithmetic::div_mod::lemma_mod_multiples_basic;
use vstd::prelude::*;
use vstd::slice::slice_to_vec;

verus! {

/// Default RF64 promotion threshold: 3.5 GB. The 4 GiB cap on a `u32` size field
/// is the hard ceiling; promotion comes half a gigabyte earlier, so that a
/// single in-flight buffer cannot cross it.
pub const DEFAULT_RF64_THRESHOLD_BYTES: u64 = 3_500_000_000;

/// Bytes to be written at a file offset.
#[derive(Debug)]
pub struct FileWrite {
    pub offset: u64,
    pub bytes: Vec<u8>,
}

/// What a finalized file holds.
#[derive(Debug, Clone, Copy, PartialEq, Eq)]
pub struct FinalizedWav {
    pub frame_count: u64,
    pub bytes_written: u64,
    pub promoted_to_rf64: bool,
}

/// A file's contents after `bytes` are written at `offset`: what lies beyond the
/// old end and before the new bytes reads as zero.
pub open spec fn written(image: Seq<u8>, offset: int, bytes: Seq<u8>) -> Seq<u8> {
    let end = offset + bytes.len();
    Seq::new(
        if end > image.len() {
            end as nat
        } else {
            image.len()
        },
        |i: int|
            if offset <= i < end {
                bytes[i - offset]
            } else if i < image.len() {
                image[i]
            } else {
                0
            },
    )
}

/// A file's contents after `writes`, first to last.
pub open spec fn after_writes(image: Seq<u8>, writes: Seq<FileWrite>) -> Seq<u8>
    decreases writes.len(),
{
    if writes.len() == 0 {
        image
    } else {
        written(
            after_writes(image, writes.drop_last()),
            writes.last().offset as int,
            writes.last().bytes@,
        )
    }
}

/// A WAV file in the making.
#[verifier::ext_equal]
pub struct WavFile {
    pub sample_rate: u32,
    pub channels: u16,
    /// The interleaved samples written so far.
    pub samples: Seq<u32>,
    /// The file's bytes.
    pub image: Seq<u8>,
    /// Is it RF64?
    pub promoted: bool,
    /// The file size from which on a write promotes it.
    pub rf64_threshold_bytes: u64,
    /// How many frames the `ds64` chunk speaks of, once promoted.
    pub ds64_frames: nat,
}

impl WavFile {
    /// The header is 80 bytes long at every stage.
    pub proof fn lemma_header_lens(self)
        ensures
            self.open_header().len() == HEADER_SIZE,
            self.final_image().len() == HEADER_SIZE + self.audio_bytes(),
    {
        reveal(header_image);
    }

    /// Whole frames written.
    pub open spec fn frames(self) -> int {
        self.samples.len() as int / self.channels as int
    }

    /// Size of the sample data.
    pub open spec fn audio_bytes(self) -> int {
        4 * self.samples.len() as int
    }

    /// Size of the file.
    pub open spec fn total_bytes(self) -> int {
        HEADER_SIZE + self.audio_bytes()
    }

    /// The header of an unfinished file.
    pub open spec fn open_header(self) -> Seq<u8> {
        if self.promoted {
            let frames = self.ds64_frames;
            let bytes = frames * self.channels * 4;
            header_image(
                rf64_tag(),
                RF64_SIZE_SENTINEL,
                ds64_chunk((72 + bytes) as u64, bytes as u64, frames as u64),
                self.sample_rate,
                self.channels,
                0,
            )
        } else {
            initial_header(self.sample_rate, self.channels)
        }
    }

    /// A file of one or two channels, whose bytes are its header and its
    /// samples.
    pub open spec fn laid_out(self) -> bool {
        &&& 1 <= self.channels <= 2
        &&& format_fits(self.sample_rate, self.channels)
        &&& self.samples.len() % (self.channels as nat) == 0
        &&& self.total_bytes() <= u64::MAX
        &&& self.image == self.open_header() + sample_bytes(self.samples)
    }

    /// A laid-out file that is promoted once samples have brought it to the
    /// threshold.
    pub open spec fn well_formed(self) -> bool {
        &&& self.laid_out()
        &&& !self.promoted && self.samples.len() > 0 ==> self.total_bytes()
            < self.rf64_threshold_bytes
    }

    /// Do the sizes fit the fields of the header? A plain file's are 32 bits
    /// wide.
    pub open spec fn sizes_fit(self) -> bool {
        self.promoted || 72 + self.audio_bytes() <= u32::MAX
    }

    /// The bytes of the finalized file.
    pub open spec fn final_image(self) -> Seq<u8> {
        if self.promoted {
            rf64_image(self.sample_rate, self.channels, self.samples)
        } else {
            riff_image(self.sample_rate, self.channels, self.samples)
        }
    }
}

/// A finished plain RIFF file.
pub open spec fn riff_image(sample_rate: u32, channels: u16, samples: Seq<u32>) -> Seq<u8> {
    let bytes = 4 * samples.len();
    header_image(
        riff_tag(),
        (72 + bytes) as u32,
        junk_chunk(),
        sample_rate,
        channels,
        bytes as u32,
    ) + sample_bytes(samples)
}

/// A finished RF64 file.
pub open spec fn rf64_image(sample_rate: u32, channels: u16, samples: Seq<u32>) -> Seq<u8> {
    let bytes = 4 * samples.len();
    header_image(
        rf64_tag(),
        RF64_SIZE_SENTINEL,
        ds64_chunk(
            (72 + bytes) as u64,
            bytes as u64,
            (samples.len() / (channels as nat)) as u64,
        ),
        sample_rate,
        channels,
        RF64_SIZE_SENTINEL,
    ) + sample_bytes(samples)
}

/// Writing at the end of a file appends.
proof fn lemma_write_at_end(image: Seq<u8>, bytes: Seq<u8>)
    ensures
        written(image, image.len() as int, bytes) == image + bytes,
{
    assert(written(image, image.len() as int, bytes) =~= image + bytes);
}

/// Writing inside the header leaves the samples alone.
proof fn lemma_write_in_header(h: Seq<u8>, tail: Seq<u8>, offset: int, bytes: Seq<u8>)
    requires
        0 <= offset,
        offset + bytes.len() <= h.len(),
    ensures
        written(h + tail, offset, bytes) == overwritten(h, offset, bytes) + tail,
{
    assert(written(h + tail, offset, bytes) =~= overwritten(h, offset, bytes) + tail);
}

/// One write.
proof fn lemma_one_write(image: Seq<u8>, w: FileWrite)
    ensures
        after_writes(image, seq![w]) == written(image, w.offset as int, w.bytes@),
{
    assert(seq![w].drop_last() =~= Seq::empty());
    reveal_with_fuel(after_writes, 2);
}

/// One write after others.
proof fn lemma_push_write(image: Seq<u8>, ws: Seq<FileWrite>, w: FileWrite)
    ensures
        after_writes(image, ws.push(w)) == written(
            after_writes(image, ws),
            w.offset as int,
            w.bytes@,
        ),
{
    assert(ws.push(w).drop_last() =~= ws);
}

/// The header's parts and where they stand.
proof fn lemma_patch_magic(
    chunk_size: u32,
    magic: Seq<u8>,
    reserve: Seq<u8>,
    sample_rate: u32,
    channels: u16,
    data_size: u32,
)
    requires
        magic.len() == 4,
        reserve.len() == 36,
    ensures
        overwritten(
            header_image(magic, chunk_size, reserve, sample_rate, channels, data_size),
            0,
            rf64_marker(),
        ) == header_image(
            rf64_tag(),
            RF64_SIZE_SENTINEL,
            reserve,
            sample_rate,
            channels,
            data_size,
        ),
{
    reveal(header_image);
    assert(overwritten(
        header_image(magic, chunk_size, reserve, sample_rate, channels, data_size),
        0,
        rf64_marker(),
    ) =~= header_image(
        rf64_tag(),
        RF64_SIZE_SENTINEL,
        reserve,
        sample_rate,
        channels,
        data_size,
    ));
}

proof fn lemma_patch_reserve(
    chunk_size: u32,
    magic: Seq<u8>,
    reserve: Seq<u8>,
    new_reserve: Seq<u8>,
    sample_rate: u32,
    channels: u16,
    data_size: u32,
)
    requires
        magic.len() == 4,
        reserve.len() == 36,
        new_reserve.len() == 36,
    ensures
        overwritten(
            header_image(magic, chunk_size, reserve, sample_rate, channels, data_size),
            12,
            new_reserve,
        ) == header_image(magic, chunk_size, new_reserve, sample_rate, channels, data_size),
{
    reveal(header_image);
    assert(overwritten(
        header_image(magic, chunk_size, reserve, sample_rate, channels, data_size),
        12,
        new_reserve,
    ) =~= header_image(magic, chunk_size, new_reserve, sample_rate, channels, data_size));
}

proof fn lemma_patch_chunk_size(
    chunk_size: u32,
    new_size: u32,
    magic: Seq<u8>,
    reserve: Seq<u8>,
    sample_rate: u32,
    channels: u16,
    data_size: u32,
)
    requires
        magic.len() == 4,
        reserve.len() == 36,
    ensures
        overwritten(
            header_image(magic, chunk_size, reserve, sample_rate, channels, data_size),
            4,
            le32(new_size),
        ) == header_image(magic, new_size, reserve, sample_rate, channels, data_size),
{
    reveal(header_image);
    assert(overwritten(
        header_image(magic, chunk_size, reserve, sample_rate, channels, data_size),
        4,
        le32(new_size),
    ) =~= header_image(magic, new_size, reserve, sample_rate, channels, data_size));
}

proof fn lemma_patch_data_size(
    chunk_size: u32,
    magic: Seq<u8>,
    reserve: Seq<u8>,
    sample_rate: u32,
    channels: u16,
    data_size: u32,
    new_size: u32,
)
    requires
        magic.len() == 4,
        reserve.len() == 36,
    ensures
        overwritten(
            header_image(magic, chunk_size, reserve, sample_rate, channels, data_size),
            76,
            le32(new_size),
        ) == header_image(magic, chunk_size, reserve, sample_rate, channels, new_size),
{
    reveal(header_image);
    assert(overwritten(
        header_image(magic, chunk_size, reserve, sample_rate, channels, data_size),
        76,
        le32(new_size),
    ) =~= header_image(magic, chunk_size, reserve, sample_rate, channels, new_size));
}

/// With a threshold of at most 4 GiB, and so with the default one, the sizes of a
/// plain file always fit its header.
pub proof fn law_threshold_keeps_sizes_in_range(f: WavFile)
    requires
        f.well_formed(),
        f.rf64_threshold_bytes <= 0x1_0000_0000,
    ensures
        f.sizes_fit(),
{
}

/// Writer for a 32-bit float interleaved WAV file, mono or stereo.
pub struct WavWriter {
    channels: u16,
    frames_written: u64,
    rf64_threshold_bytes: u64,
    promoted: bool,
    sample_rate: Ghost<u32>,
    samples: Ghost<Seq<u32>>,
    image: Ghost<Seq<u8>>,
    ds64_frames: Ghost<nat>,
}

impl View for WavWriter {
    type V = WavFile;

    closed spec fn view(&self) -> WavFile {
        WavFile {
            sample_rate: self.sample_rate@,
            channels: self.channels,
            samples: self.samples@,
            image: self.image@,
            promoted: self.promoted,
            rf64_threshold_bytes: self.rf64_threshold_bytes,
            ds64_frames: self.ds64_frames@,
        }
    }
}

impl WavWriter {
    /// The file is well formed and the frame counter counts its frames.
    pub closed spec fn wf(&self) -> bool {
        &&& self.counted()
        &&& self@.well_formed()
    }

    spec fn counted(&self) -> bool {
        &&& self@.laid_out()
        &&& self.frames_written * self.channels == self@.samples.len()
    }

    /// Starts a file with the default promotion threshold.
    pub fn create(sample_rate: u32, channels: u16) -> (r: (WavWriter, Vec<FileWrite>))
        requires
            1 <= channels <= 2,
            format_fits(sample_rate, channels),
        ensures
            r.0.wf(),
            r.0@ == (WavFile {
                sample_rate,
                channels,
                samples: Seq::empty(),
                image: initial_header(sample_rate, channels),
                promoted: false,
                rf64_threshold_bytes: DEFAULT_RF64_THRESHOLD_BYTES,
                ds64_frames: 0,
            }),
            after_writes(Seq::empty(), r.1@) == r.0@.image,
    {
        WavWriter::create_with_threshold(sample_rate, channels, DEFAULT_RF64_THRESHOLD_BYTES)
    }

    /// Starts a file with a promotion threshold of the caller's.
    pub fn create_with_threshold(
        sample_rate: u32,
        channels: u16,
        rf64_threshold_bytes: u64,
    ) -> (r: (WavWriter, Vec<FileWrite>))
        requires
            1 <= channels <= 2,
            format_fits(sample_rate, channels),
        ensures
            r.0.wf(),
            r.0@ == (WavFile {
                sample_rate,
                channels,
                samples: Seq::empty(),
                image: initial_header(sample_rate, channels),
                promoted: false,
                rf64_threshold_bytes,
                ds64_frames: 0,
            }),
            after_writes(Seq::empty(), r.1@) == r.0@.image,
    {
        let h: [u8; 80] = build_initial_header(sample_rate, channels);
        let w = FileWrite { offset: 0, bytes: slice_to_vec(h.as_slice()) };
        let ghost image = initial_header(sample_rate, channels);
        proof {
            lemma_one_write(Seq::empty(), w);
            assert(written(Seq::empty(), 0, image) =~= image);
            assert(image + sample_bytes(Seq::empty()) =~= image);
        }
        let mut writes: Vec<FileWrite> = Vec::new();
        writes.push(w);
        proof {
            assert(writes@ =~= seq![w]);
        }
        let writer = WavWriter {
            channels,
            frames_written: 0,
            rf64_threshold_bytes,
            promoted: false,
            sample_rate: Ghost(sample_rate),
            samples: Ghost(Seq::empty()),
            image: Ghost(image),
            ds64_frames: Ghost(0),
        };
        (writer, writes)
    }

    /// Channels per frame.
    pub fn channels(&self) -> (r: u16)
        ensures
            r == self@.channels,
    {
        self.channels
    }

    fn audio_byte_count(&self) -> (r: u64)
        requires
            self.counted(),
        ensures
            r == self@.audio_bytes(),
    {
        proof {
            self.lemma_counts();
        }
        self.frames_written * (self.channels as u64) * 4
    }

    fn total_byte_count(&self) -> (r: u64)
        requires
            self.counted(),
        ensures
            r == self@.total_bytes(),
    {
        HEADER_SIZE + self.audio_byte_count()
    }

    /// Size of the file so far.
    pub fn total_bytes(&self) -> (r: u64)
        requires
            self.wf(),
        ensures
            r == self@.total_bytes(),
    {
        self.total_byte_count()
    }

    /// Was the file promoted to RF64?
    pub fn promoted(&self) -> (r: bool)
        ensures
            r == self@.promoted,
    {
        self.promoted
    }

    /// Whatever was written, the file is well formed.
    pub proof fn law_file_is_well_formed(&self)
        requires
            self.wf(),
        ensures
            self@.well_formed(),
    {
    }

    proof fn lemma_counts(&self)
        requires
            self.counted(),
        ensures
            self.frames_written * self.channels == self.samples@.len(),
            self.frames_written * self.channels * 4 == self@.audio_bytes(),
            self.frames_written == self@.frames(),
            self@.audio_bytes() <= u64::MAX - 80,
    {
        let f = self.frames_written as int;
        let c = self.channels as int;
        assert((f * c) / c == f) by (nonlinear_arith)
            requires
                c > 0,
        ;
    }

    /// Appends interleaved samples, a whole number of frames. Once the file has
    /// reached the threshold it is promoted to RF64, in place.
    pub fn write_frames(&mut self, samples: &[u32]) -> (writes: Vec<FileWrite>)
        requires
            old(self).wf(),
            samples@.len() % (old(self)@.channels as nat) == 0,
            old(self)@.total_bytes() + 4 * samples@.len() <= u64::MAX,
        ensures
            final(self).wf(),
            final(self)@.sample_rate == old(self)@.sample_rate,
            final(self)@.channels == old(self)@.channels,
            final(self)@.rf64_threshold_bytes == old(self)@.rf64_threshold_bytes,
            final(self)@.samples == old(self)@.samples + samples@,
            final(self)@.promoted == (old(self)@.promoted || (samples@.len() > 0
                && final(self)@.total_bytes() >= old(self)@.rf64_threshold_bytes)),
            final(self)@.ds64_frames == if final(self)@.promoted && !old(self)@.promoted {
                final(self)@.frames() as nat
            } else {
                old(self)@.ds64_frames
            },
            final(self)@.image == after_writes(old(self)@.image, writes@),
    {
        let mut writes: Vec<FileWrite> = Vec::new();
        if samples.len() == 0 {
            proof {
                assert(old(self)@.samples + samples@ =~= old(self)@.samples);
            }
            return writes;
        }
        let ch: usize = self.channels as usize;
        let offset: u64 = self.total_byte_count();
        let bytes: Vec<u8> = encode_samples(samples);
        let added: usize = samples.len() / ch;
        proof {
            self.lemma_counts();
            let c = self.channels as int;
            let f = self.frames_written as int;
            let n = samples@.len() as int;
            assert(n == (n / c) * c) by (nonlinear_arith)
                requires
                    c > 0,
                    n % c == 0,
            ;
            assert((f + n / c) * c == f * c + (n / c) * c) by (nonlinear_arith);
            lemma_mod_multiples_basic(f + n / c, c);
            assert(f + n / c <= (f + n / c) * c) by (nonlinear_arith)
                requires
                    c >= 1,
                    f >= 0,
                    n >= 0,
            ;
            law_sample_bytes_concatenate(self.samples@, samples@);
            lemma_write_at_end(self.image@, bytes@);
            let w = FileWrite { offset, bytes };
            lemma_one_write(self.image@, w);
            self@.lemma_header_lens();
            assert(self.image@ + sample_bytes(samples@) =~= self@.open_header() + sample_bytes(
                self.samples@ + samples@,
            ));
        }
        writes.push(FileWrite { offset, bytes });
        self.frames_written = self.frames_written + added as u64;
        self.samples = Ghost(self.samples@ + samples@);
        self.image = Ghost(self.image@ + bytes@);
        if !self.promoted && self.total_byte_count() >= self.rf64_threshold_bytes {
            proof {
                assert(writes@.drop_last() =~= Seq::empty());
            }
            let (marker, ds64) = self.promote_to_rf64();
            proof {
                lemma_push_write(old(self)@.image, writes@, marker);
                lemma_push_write(old(self)@.image, writes@.push(marker), ds64);
            }
            writes.push(marker);
            writes.push(ds64);
        }
        writes
    }

    /// Turns the file into RF64: the marker, and a `ds64` chunk with the sizes
    /// so far.
    fn promote_to_rf64(&mut self) -> (r: (FileWrite, FileWrite))
        requires
            old(self).counted(),
            !old(self)@.promoted,
        ensures
            final(self).counted(),
            final(self)@ == (WavFile {
                promoted: true,
                image: final(self)@.image,
                ds64_frames: old(self)@.frames() as nat,
                ..old(self)@
            }),
            final(self)@.image == written(
                written(old(self)@.image, r.0.offset as int, r.0.bytes@),
                r.1.offset as int,
                r.1.bytes@,
            ),
    {
        proof {
            self@.lemma_header_lens();
        }
        let audio_bytes: u64 = self.audio_byte_count();
        let riff_size: u64 = HEADER_SIZE - 8 + audio_bytes;
        let marker: [u8; 8] = build_rf64_marker();
        let ds64: [u8; 36] = build_ds64_chunk(riff_size, audio_bytes, self.frames_written);
        proof {
            self.lemma_counts();
            let sr = self.sample_rate@;
            let ch = self.channels;
            let tail = sample_bytes(self.samples@);
            let h0 = initial_header(sr, ch);
            let h1 = header_image(rf64_tag(), RF64_SIZE_SENTINEL, junk_chunk(), sr, ch, 0);
            lemma_patch_magic(0, riff_tag(), junk_chunk(), sr, ch, 0);
            lemma_write_in_header(h0, tail, 0, marker@);
            lemma_patch_reserve(
                RF64_SIZE_SENTINEL,
                rf64_tag(),
                junk_chunk(),
                ds64@,
                sr,
                ch,
                0,
            );
            lemma_write_in_header(h1, tail, 12, ds64@);
        }
        self.promoted = true;
        self.ds64_frames = Ghost(self.frames_written as nat);
        self.image = Ghost(self@.open_header() + sample_bytes(self.samples@));
        (
            FileWrite { offset: 0, bytes: slice_to_vec(marker.as_slice()) },
            FileWrite { offset: 12, bytes: slice_to_vec(ds64.as_slice()) },
        )
    }

    /// Patches the size fields and sums the file up.
    pub fn finalize(self) -> (r: (FinalizedWav, Vec<FileWrite>))
        requires
            self.wf(),
            self@.sizes_fit(),
        ensures
            r.0.frame_count == self@.frames(),
            r.0.bytes_written == self@.total_bytes(),
            r.0.promoted_to_rf64 == self@.promoted,
            after_writes(self@.image, r.1@) == self@.final_image(),
            self@.final_image().len() == self@.total_bytes(),
    {
        let writes = self.patch_size_fields();
        proof {
            self.lemma_counts();
        }
        let fin = FinalizedWav {
            frame_count: self.frames_written,
            bytes_written: self.total_byte_count(),
            promoted_to_rf64: self.promoted,
        };
        (fin, writes)
    }

    fn patch_size_fields(&self) -> (writes: Vec<FileWrite>)
        requires
            self.wf(),
            self@.sizes_fit(),
        ensures
            after_writes(self@.image, writes@) == self@.final_image(),
            self@.final_image().len() == self@.total_bytes(),
    {
        proof {
            self@.lemma_header_lens();
        }
        let audio_bytes: u64 = self.audio_byte_count();
        let mut writes: Vec<FileWrite> = Vec::new();
        let ghost sr = self.sample_rate@;
        let ghost ch = self.channels;
        let ghost tail = sample_bytes(self.samples@);
        proof {
            self.lemma_counts();
        }
        if self.promoted {
            let riff_size: u64 = HEADER_SIZE - 8 + audio_bytes;
            let ds64: [u8; 36] = build_ds64_chunk(riff_size, audio_bytes, self.frames_written);
            let mut sentinel: Vec<u8> = Vec::new();
            push_u32(&mut sentinel, RF64_SIZE_SENTINEL);
            let first = FileWrite { offset: 12, bytes: slice_to_vec(ds64.as_slice()) };
            let second = FileWrite { offset: 76, bytes: sentinel };
            proof {
                let frames = self.ds64_frames@;
                let bytes = frames * self.channels * 4;
                let before = ds64_chunk((72 + bytes) as u64, bytes as u64, frames as u64);
                let h1 = header_image(rf64_tag(), RF64_SIZE_SENTINEL, ds64@, sr, ch, 0);
                lemma_patch_reserve(
                    RF64_SIZE_SENTINEL,
                    rf64_tag(),
                    before,
                    ds64@,
                    sr,
                    ch,
                    0,
                );
                lemma_write_in_header(self@.open_header(), tail, 12, ds64@);
                lemma_patch_data_size(
                    RF64_SIZE_SENTINEL,
                    rf64_tag(),
                    ds64@,
                    sr,
                    ch,
                    0,
                    RF64_SIZE_SENTINEL,
                );
                assert(sentinel@ =~= le32(RF64_SIZE_SENTINEL));
                lemma_write_in_header(h1, tail, 76, sentinel@);
                lemma_push_write(self@.image, Seq::empty(), first);
                lemma_push_write(self@.image, Seq::empty().push(first), second);
            }
            writes.push(first);
            writes.push(second);
        } else {
            let mut chunk_size: Vec<u8> = Vec::new();
            push_u32(&mut chunk_size, riff_chunk_size(audio_bytes));
            let mut data_size: Vec<u8> = Vec::new();
            push_u32(&mut data_size, audio_bytes as u32);
            let first = FileWrite { offset: 4, bytes: chunk_size };
            let second = FileWrite { offset: 76, bytes: data_size };
            proof {
                let riff_size = (72 + audio_bytes) as u32;
                let h1 = header_image(riff_tag(), riff_size, junk_chunk(), sr, ch, 0);
                assert(chunk_size@ =~= le32(riff_size));
                assert(data_size@ =~= le32(audio_bytes as u32));
                lemma_patch_chunk_size(0, riff_size, riff_tag(), junk_chunk(), sr, ch, 0);
                lemma_write_in_header(self@.open_header(), tail, 4, chunk_size@);
                lemma_patch_data_size(
                    riff_size,
                    riff_tag(),
                    junk_chunk(),
                    sr,
                    ch,
                    0,
                    audio_bytes as u32,
                );
                lemma_write_in_header(h1, tail, 76, data_size@);
                lemma_push_write(self@.image, Seq::empty(), first);
                lemma_push_write(self@.image, Seq::empty().push(first), second);
            }
            writes.push(first);
            writes.push(second);
        }
        writes
    }
}

/// What a finished plain file says, by its bytes: the sizes of the file behind its
/// first eight bytes and of the samples, the format, and from byte 80 on the samples.
pub proof fn law_plain_file_tells_its_sizes(sample_rate: u32, channels: u16, samples: Seq<u32>)
    requires
        channels * 4 <= 0xFFFF,
        sample_rate * (channels * 4) <= 0xFFFF_FFFF,
        72 + 4 * samples.len() <= 0xFFFF_FFFF,
    ensures
        ({
            let b = riff_image(sample_rate, channels, samples);
            &&& b.len() == 80 + 4 * samples.len()
            &&& b.subrange(0, 4) == seq![0x52u8, 0x49, 0x46, 0x46]
            &&& u32_at(b, 4) == b.len() - 8
            &&& b.subrange(8, 12) == seq![0x57u8, 0x41, 0x56, 0x45]
            &&& b.subrange(48, 52) == seq![0x66u8, 0x6D, 0x74, 0x20]
            &&& u16_at(b, 58) == channels
            &&& u32_at(b, 60) == sample_rate
            &&& u32_at(b, 64) == sample_rate * (channels * 4)
            &&& u16_at(b, 68) == channels * 4
            &&& b.subrange(72, 76) == seq![0x64u8, 0x61, 0x74, 0x61]
            &&& u32_at(b, 76) == b.len() - 80
            &&& samples_at(b, 80, samples.len()) == samples
        }),
{
    let n = 4 * samples.len();
    let b = riff_image(sample_rate, channels, samples);
    let h = header_image(
        riff_tag(),
        (72 + n) as u32,
        junk_chunk(),
        sample_rate,
        channels,
        n as u32,
    );
    lemma_header_len(riff_tag(), (72 + n) as u32, junk_chunk(), sample_rate, channels, n as u32);
    assert(b.take(80) =~= h);
    lemma_header_says(
        b,
        riff_tag(),
        (72 + n) as u32,
        junk_chunk(),
        sample_rate,
        channels,
        n as u32,
    );
    lemma_samples_after(h, samples);
}

/// What a finished RF64 file says, by its bytes: its 32-bit sizes are all ones, and
/// the 64-bit sizes and the number of frames stand in the `ds64` chunk.
pub proof fn law_rf64_file_tells_its_sizes(sample_rate: u32, channels: u16, samples: Seq<u32>)
    requires
        channels > 0,
        channels * 4 <= 0xFFFF,
        sample_rate * (channels * 4) <= 0xFFFF_FFFF,
        samples.len() % (channels as nat) == 0,
        80 + 4 * samples.len() <= u64::MAX,
    ensures
        ({
            let b = rf64_image(sample_rate, channels, samples);
            &&& b.len() == 80 + 4 * samples.len()
            &&& b.subrange(0, 4) == seq![0x52u8, 0x46, 0x36, 0x34]
            &&& u32_at(b, 4) == 0xFFFF_FFFF
            &&& b.subrange(8, 12) == seq![0x57u8, 0x41, 0x56, 0x45]
            &&& b.subrange(12, 16) == seq![0x64u8, 0x73, 0x36, 0x34]
            &&& u32_at(b, 16) == 28
            &&& u64_at(b, 20) == b.len() - 8
            &&& u64_at(b, 28) == b.len() - 80
            &&& u64_at(b, 36) * channels == samples.len()
            &&& u32_at(b, 44) == 0
            &&& u16_at(b, 58) == channels
            &&& u32_at(b, 60) == sample_rate
            &&& u32_at(b, 64) == sample_rate * (channels * 4)
            &&& u16_at(b, 68) == channels * 4
            &&& u32_at(b, 76) == 0xFFFF_FFFF
            &&& samples_at(b, 80, samples.len()) == samples
        }),
{
    let n = 4 * samples.len();
    let b = rf64_image(sample_rate, channels, samples);
    let frames = (samples.len() / (channels as nat)) as u64;
    let ds64 = ds64_chunk((72 + n) as u64, n as u64, frames);
    let h = header_image(
        rf64_tag(),
        RF64_SIZE_SENTINEL,
        ds64,
        sample_rate,
        channels,
        RF64_SIZE_SENTINEL,
    );
    lemma_header_len(
        rf64_tag(),
        RF64_SIZE_SENTINEL,
        ds64,
        sample_rate,
        channels,
        RF64_SIZE_SENTINEL,
    );
    assert(b.take(80) =~= h);
    lemma_header_says(
        b,
        rf64_tag(),
        RF64_SIZE_SENTINEL,
        ds64,
        sample_rate,
        channels,
        RF64_SIZE_SENTINEL,
    );
    lemma_ds64_says(b, (72 + n) as u64, n as u64, frames);
    lemma_samples_after(h, samples);
    let c = channels as int;
    let m = samples.len() as int;
    assert(m / c * c == m) by (nonlinear_arith)
        requires
            c > 0,
            m % c == 0,
    ;
    assert(m / c <= m) by (nonlinear_arith)
        requires
            c >= 1,
            m >= 0,
    ;
}

/// The fields of a `ds64` chunk at 12, read back.
proof fn lemma_ds64_says(b: Seq<u8>, riff_size: u64, data_size: u64, frames: u64)
    requires
        b.len() >= 48,
        b.subrange(12, 48) == ds64_chunk(riff_size, data_size, frames),
    ensures
        b.subrange(12, 16) == seq![0x64u8, 0x73, 0x36, 0x34],
        u32_at(b, 16) == 28,
        u64_at(b, 20) == riff_size,
        u64_at(b, 28) == data_size,
        u64_at(b, 36) == frames,
        u32_at(b, 44) == 0,
{
    let d = ds64_chunk(riff_size, data_size, frames);
    assert(d.subrange(0, 4) =~= seq![0x64u8, 0x73, 0x36, 0x34]);
    assert(d.subrange(4, 8) =~= le32(28));
    assert(d.subrange(8, 16) =~= le64(riff_size));
    assert(d.subrange(16, 24) =~= le64(data_size));
    assert(d.subrange(24, 32) =~= le64(frames));
    assert(d.subrange(32, 36) =~= le32(0));
    assert(b.subrange(12, 16) =~= d.subrange(0, 4));
    assert(b.subrange(16, 20) =~= d.subrange(4, 8));
    assert(b.subrange(20, 28) =~= d.subrange(8, 16));
    assert(b.subrange(28, 36) =~= d.subrange(16, 24));
    assert(b.subrange(36, 44) =~= d.subrange(24, 32));
    assert(b.subrange(44, 48) =~= d.subrange(32, 36));
    law_u32_reads_back(b, 16, 28);
    law_u64_reads_back(b, 20, riff_size);
    law_u64_reads_back(b, 28, data_size);
    law_u64_reads_back(b, 36, frames);
    law_u32_reads_back(b, 44, 0);
}

/// Samples behind a header read back.
proof fn lemma_samples_after(h: Seq<u8>, samples: Seq<u32>)
    requires
        h.len() == 80,
    ensures
        samples_at(h + sample_bytes(samples), 80, samples.len()) == samples,
{
    let d = sample_bytes(samples);
    law_samples_read_back(samples);
    assert forall|i: int| 0 <= i < samples.len() implies #[trigger] samples_at(
        h + d,
        80,
        samples.len(),
    )[i] == samples[i] by {
        assert(samples_at(d, 0, samples.len())[i] == samples[i]);
    }
    assert(samples_at(h + d, 80, samples.len()) =~= samples);
}

/// A take's sizes in numbers: four bytes per sample, eighty before them, and whole
/// frames of its channels.
pub proof fn law_take_sizes(f: WavFile)
    requires
        f.well_formed(),
    ensures
        1 <= f.channels <= 2,
        f.image.len() == 80 + 4 * f.samples.len(),
        f.total_bytes() == f.image.len(),
        f.audio_bytes() == f.image.len() - 80,
        f.frames() * f.channels == f.samples.len(),
        f.final_image().len() == f.image.len(),
        f.samples.len() > 0 && f.image.len() >= f.rf64_threshold_bytes ==> f.promoted,
{
    f.lemma_header_lens();
    let c = f.channels as int;
    let m = f.samples.len() as int;
    assert(m / c * c == m) by (nonlinear_arith)
        requires
            c > 0,
            m % c == 0,
    ;
}

/// A write puts its bytes where it says, leaves every other byte that was there, and
/// never makes a file shorter.
pub proof fn law_write_touches_only_its_place(image: Seq<u8>, offset: int, bytes: Seq<u8>, i: int)
    requires
        0 <= offset <= image.len(),
    ensures
        written(image, offset, bytes).len() >= image.len(),
        written(image, offset, bytes).len() == image.len() || written(image, offset, bytes).len()
            == offset + bytes.len(),
        0 <= i < bytes.len() ==> written(image, offset, bytes)[offset + i] == bytes[i],
        0 <= i < image.len() && (i < offset || offset + bytes.len() <= i) ==> written(
            image,
            offset,
            bytes,
        )[i] == image[i],
{
}

/// Writes take effect one after the other: those of a second list come on top of what
/// the first has left.
pub proof fn law_writes_come_in_order(
    image: Seq<u8>,
    first: Seq<FileWrite>,
    then: Seq<FileWrite>,
    w: FileWrite,
)
    ensures
        after_writes(image, first + then) == after_writes(after_writes(image, first), then),
        after_writes(image, seq![w]) == written(image, w.offset as int, w.bytes@),
        after_writes(image, Seq::<FileWrite>::empty()) == image,
    decreases then.len(),
{
    lemma_one_write(image, w);
    if then.len() == 0 {
        assert(first + then =~= first);
    } else {
        law_writes_come_in_order(image, first, then.drop_last(), w);
        assert((first + then).drop_last() =~= first + then.drop_last());
        assert((first + then).last() == then.last());
    }
}

/// What an unfinished take says, by its bytes: its format is there from the start, and
/// its samples stand from byte 80 on; the size of the samples is zero until the take is
/// finished, but for the sizes in the `ds64` chunk of one that is promoted.
pub proof fn law_open_take_tells_its_format(f: WavFile)
    requires
        f.laid_out(),
    ensures
        f.image.len() == 80 + 4 * f.samples.len(),
        f.image.subrange(8, 12) == seq![0x57u8, 0x41, 0x56, 0x45],
        u16_at(f.image, 56) == 3,
        u16_at(f.image, 58) == f.channels,
        u32_at(f.image, 60) == f.sample_rate,
        u32_at(f.image, 64) == f.sample_rate * (f.channels * 4),
        u16_at(f.image, 68) == f.channels * 4,
        u16_at(f.image, 70) == 32,
        f.image.subrange(72, 76) == seq![0x64u8, 0x61, 0x74, 0x61],
        u32_at(f.image, 76) == 0,
        samples_at(f.image, 80, f.samples.len()) == f.samples,
        !f.promoted ==> f.image.subrange(0, 4) == seq![0x52u8, 0x49, 0x46, 0x46] && u32_at(
            f.image,
            4,
        ) == 0,
        f.promoted ==> f.image.subrange(0, 4) == seq![0x52u8, 0x46, 0x36, 0x34] && u32_at(
            f.image,
            4,
        ) == 0xFFFF_FFFF,
{
    f.lemma_header_lens();
    let h = f.open_header();
    assert(f.image.take(80) =~= h);
    lemma_samples_after(h, f.samples);
    if f.promoted {
        let bytes = f.ds64_frames * f.channels * 4;
        lemma_header_says(
            f.image,
            rf64_tag(),
            RF64_SIZE_SENTINEL,
            ds64_chunk((72 + bytes) as u64, bytes as u64, f.ds64_frames as u64),
            f.sample_rate,
            f.channels,
            0,
        );
    } else {
        lemma_header_says(
            f.image,
            riff_tag(),
            0,
            junk_chunk(),
            f.sample_rate,
            f.channels,
            0,
        );
    }
}

/// A promoted take that is not finished says in its `ds64` chunk how long it was when
/// that was last written.
pub proof fn law_promoted_take_tells_its_length(f: WavFile)
    requires
        f.laid_out(),
        f.promoted,
        72 + f.ds64_frames * f.channels * 4 <= u64::MAX,
    ensures
        f.image.subrange(12, 16) == seq![0x64u8, 0x73, 0x36, 0x34],
        u64_at(f.image, 20) == 72 + f.ds64_frames * f.channels * 4,
        u64_at(f.image, 28) == f.ds64_frames * f.channels * 4,
        u64_at(f.image, 36) == f.ds64_frames,
{
    let frames = f.ds64_frames;
    let bytes = frames * f.channels * 4;
    f.lemma_header_lens();
    assert(f.image.take(80) =~= f.open_header());
    let ds64 = ds64_chunk((72 + bytes) as u64, bytes as u64, frames as u64);
    lemma_header_says(
        f.image,
        rf64_tag(),
        RF64_SIZE_SENTINEL,
        ds64,
        f.sample_rate,
        f.channels,
        0,
    );
    assert(frames <= bytes) by (nonlinear_arith)
        requires
            bytes == frames * f.channels * 4,
            f.channels >= 1,
            frames >= 0,
    ;
    lemma_ds64_says(f.image, (72 + bytes) as u64, bytes as u64, frames as u64);
}

} // verus!
