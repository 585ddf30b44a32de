//! Frame suppliers for the reader.
use crate::frames::smaller;
use crate::text::{decimal, push_decimal, with_decimal};
use std::sync::Arc;
use vstd::arithmetic::div_mod::{lemma_fundamental_div_mod, lemma_mod_multiples_basic};
use vstd::prelude::*;
use vstd::string::*;

verus! {

/// Errors a [`PlaybackSource`] may return when asked to seek.
#[derive(Debug, PartialEq, Eq)]
pub enum SeekError {
    /// The source cannot seek.
    NotSeekable,
    /// The requested frame is beyond the source's end.
    OutOfBounds { requested: u64, max: u64 },
    /// The underlying I/O failed.
    Io(String),
}

impl SeekError {
    /// The text of the error.
    pub open spec fn text(&self) -> Seq<char> {
        match self {
            SeekError::NotSeekable => "source is not seekable"@,
            SeekError::OutOfBounds { requested, max } => "seek out of bounds: requested "@
                + decimal(*requested as nat) + ", max "@ + decimal(*max as nat),
            SeekError::Io(m) => "source seek failed: "@ + m@,
        }
    }

    /// The text of the error.
    pub fn message(&self) -> (r: String)
        ensures
            r@ == self.text(),
    {
        match self {
            SeekError::NotSeekable => "source is not seekable".to_owned(),
            SeekError::OutOfBounds { requested, max } => {
                let mut s: String = with_decimal("seek out of bounds: requested ", *requested);
                s.append(", max ");
                push_decimal(&mut s, *max);
                s
            },
            SeekError::Io(m) => "source seek failed: ".to_owned().concat(m.as_str()),
        }
    }
}

/// A frame supplier: interleaved 32-bit float samples, as bit patterns, at a
/// fixed sample rate and channel count.
pub trait PlaybackSource: Send {
    /// All samples, from the first frame on.
    spec fn all(&self) -> Seq<u32>;

    /// The samples still to be pulled.
    spec fn remaining(&self) -> Seq<u32>;

    /// Channels per frame.
    spec fn channel_count(&self) -> u16;

    /// Sample rate in Hz.
    spec fn rate(&self) -> u32;

    /// Is a seek to this frame sure to succeed?
    spec fn reaches(&self, frame: u64) -> bool;

    /// The source's own invariant; it entails whole frames of at least one
    /// channel.
    spec fn wf(&self) -> bool;

    /// Whole frames of at least one channel.
    proof fn lemma_wf(&self)
        requires
            self.wf(),
        ensures
            self.channel_count() > 0,
            self.all().len() % (self.channel_count() as nat) == 0,
            self.remaining().len() % (self.channel_count() as nat) == 0,
            self.remaining().len() <= self.all().len(),
    ;

    /// Pulls as many frames into `dst` as it has room for or as are left.
    /// Returns the number of frames; zero means end of source.
    fn pull(&mut self, dst: &mut [u32]) -> (n: usize)
        requires
            old(self).wf(),
            old(dst)@.len() % (old(self).channel_count() as nat) == 0,
        ensures
            final(self).wf(),
            final(self).all() == old(self).all(),
            final(self).channel_count() == old(self).channel_count(),
            final(self).rate() == old(self).rate(),
            n * old(self).channel_count() == smaller(
                old(dst)@.len() as int,
                old(self).remaining().len() as int,
            ),
            final(dst)@ == old(self).remaining().take(n * old(self).channel_count()) + old(
                dst,
            )@.skip(n * old(self).channel_count()),
            final(self).remaining() == old(self).remaining().skip(n * old(self).channel_count()),
    ;

    /// Repositions the source so that `frame` is pulled next. The frame after
    /// the last means end of source.
    fn seek(&mut self, frame: u64) -> (r: Result<(), SeekError>)
        requires
            old(self).wf(),
        ensures
            final(self).wf(),
            final(self).all() == old(self).all(),
            final(self).channel_count() == old(self).channel_count(),
            final(self).rate() == old(self).rate(),
            old(self).reaches(frame) ==> r is Ok,
            r is Ok ==> frame * old(self).channel_count() <= old(self).all().len()
                && final(self).remaining() == old(self).all().skip(
                frame * old(self).channel_count(),
            ),
    ;

    /// Total frame count if known.
    fn duration_frames(&self) -> (r: Option<u64>)
        requires
            self.wf(),
        ensures
            r matches Some(n) ==> n * self.channel_count() == self.all().len(),
    ;

    /// Sample rate in Hz.
    fn sample_rate(&self) -> (r: u32)
        ensures
            r == self.rate(),
    ;

    /// Channels per frame.
    fn channels(&self) -> (r: u16)
        ensures
            r == self.channel_count(),
    ;
}

/// Frame counts are ordered as the sample counts are.
proof fn lemma_frame_order(a: int, b: int, channels: int)
    requires
        channels > 0,
    ensures
        a <= b <==> a * channels <= b * channels,
{
    if a <= b {
        assert(a * channels <= b * channels) by (nonlinear_arith)
            requires
                a <= b,
                channels > 0,
        ;
    } else {
        assert(a * channels > b * channels) by (nonlinear_arith)
            requires
                a > b,
                channels > 0,
        ;
    }
}

/// In-memory source. The shared samples live at least as long as the source.
pub struct BufferSource {
    samples: Arc<[u32]>,
    sample_rate: u32,
    channels: u16,
    /// Frame index of the next frame to be pulled.
    cursor: u64,
}

impl BufferSource {
    /// A source at its first frame; `None` where there are no channels or the
    /// samples are not whole frames.
    pub fn new(samples: Arc<[u32]>, sample_rate: u32, channels: u16) -> (r: Option<BufferSource>)
        ensures
            r is Some <==> channels > 0 && samples@.len() % (channels as nat) == 0,
            r matches Some(s) ==> {
                &&& s.wf()
                &&& s.all() == samples@
                &&& s.remaining() == samples@
                &&& s.channel_count() == channels
                &&& s.rate() == sample_rate
            },
    {
        if channels == 0 {
            return None;
        }
        if samples.len() % (channels as usize) != 0 {
            return None;
        }
        let s = BufferSource { samples, sample_rate, channels, cursor: 0 };
        proof {
            assert(0 * channels == 0) by (nonlinear_arith);
            assert(s.remaining() =~= samples@);
        }
        Some(s)
    }

    /// Number of frames in the buffer.
    pub open spec fn frames(&self) -> u64 {
        (self.all().len() / (self.channel_count() as nat)) as u64
    }

    fn total_frames(&self) -> (r: u64)
        requires
            self.wf(),
        ensures
            r * self.channels == self.samples@.len(),
            r == self.frames(),
    {
        proof {
            let c = self.channels as int;
            let n = self.samples@.len() as int;
            lemma_fundamental_div_mod(n, c);
            assert(n / c * c == c * (n / c)) by (nonlinear_arith);
        }
        (self.samples.len() / (self.channels as usize)) as u64
    }
}

impl PlaybackSource for BufferSource {
    closed spec fn all(&self) -> Seq<u32> {
        self.samples@
    }

    closed spec fn remaining(&self) -> Seq<u32> {
        self.samples@.skip(self.cursor * self.channels)
    }

    closed spec fn channel_count(&self) -> u16 {
        self.channels
    }

    closed spec fn rate(&self) -> u32 {
        self.sample_rate
    }

    /// Every frame of the buffer, and its end.
    open spec fn reaches(&self, frame: u64) -> bool {
        frame * self.channel_count() <= self.all().len()
    }

    closed spec fn wf(&self) -> bool {
        &&& self.channels > 0
        &&& self.samples@.len() % (self.channels as nat) == 0
        &&& self.cursor * self.channels <= self.samples@.len()
    }

    proof fn lemma_wf(&self) {
        let c = self.channels as int;
        let n = self.samples@.len() as int;
        lemma_fundamental_div_mod(n, c);
        let q = n / c;
        assert(n - self.cursor * c == (q - self.cursor) * c) by (nonlinear_arith)
            requires
                n == c * q,
        ;
        lemma_mod_multiples_basic(q - self.cursor, c);
    }

    fn pull(&mut self, dst: &mut [u32]) -> (n: usize) {
        let ch: usize = self.channels as usize;
        let total: u64 = self.total_frames();
        proof {
            lemma_frame_order(self.cursor as int, total as int, ch as int);
        }
        let max_frames_dst: usize = dst.len() / ch;
        let left: u64 = total - self.cursor;
        let frames: usize = if (max_frames_dst as u64) < left {
            max_frames_dst
        } else {
            left as usize
        };
        let ghost src = self.samples@;
        let ghost before = dst@;
        proof {
            let c = ch as int;
            let d = dst@.len() as int;
            lemma_fundamental_div_mod(d, c);
            assert(d == max_frames_dst * c) by (nonlinear_arith)
                requires
                    d == c * (d / c),
                    max_frames_dst == d / c,
            ;
            assert(left * c == total * c - self.cursor * c) by (nonlinear_arith)
                requires
                    left == total - self.cursor,
            ;
            lemma_frame_order(frames as int, max_frames_dst as int, c);
            lemma_frame_order(frames as int, left as int, c);
            assert((self.cursor + frames) * c == self.cursor * c + frames * c) by (nonlinear_arith);
            assert(self.cursor <= self.cursor * c) by (nonlinear_arith)
                requires
                    c >= 1,
            ;
            assert(self.cursor * c <= self.samples.len());
        }
        let start: usize = (self.cursor as usize) * ch;
        let count: usize = frames * ch;
        let mut i: usize = 0;
        while i < count
            invariant
                i <= count,
                start + count <= self.samples.len(),
                self.samples@ == src,
                count <= dst@.len(),
                dst@.len() == before.len(),
                dst@ == src.skip(start as int).take(i as int) + before.skip(i as int),
            decreases count - i,
        {
            dst[i] = self.samples[start + i];
            proof {
                assert(dst@ =~= src.skip(start as int).take(i + 1) + before.skip(i + 1));
            }
            i += 1;
        }
        self.cursor = self.cursor + frames as u64;
        proof {
            assert(self.remaining() =~= old(self).remaining().skip(count as int));
        }
        frames
    }

    fn seek(&mut self, frame: u64) -> (r: Result<(), SeekError>)
        ensures
            r is Ok <==> frame * old(self).channel_count() <= old(self).all().len(),
            r matches Err(e) ==> final(self).remaining() == old(self).remaining() && e
                == (SeekError::OutOfBounds { requested: frame, max: old(self).frames() }),
    {
        let total: u64 = self.total_frames();
        proof {
            lemma_frame_order(frame as int, total as int, self.channels as int);
        }
        if frame > total {
            return Err(SeekError::OutOfBounds { requested: frame, max: total });
        }
        self.cursor = frame;
        Ok(())
    }

    fn duration_frames(&self) -> (r: Option<u64>)
        ensures
            r == Some(self.frames()),
    {
        Some(self.total_frames())
    }

    fn sample_rate(&self) -> (r: u32) {
        self.sample_rate
    }

    fn channels(&self) -> (r: u16) {
        self.channels
    }
}

/// What is still to be pulled of a buffer is its end, and its frames make up all of its
/// samples; it reaches every frame up to the one behind its last.
pub proof fn law_buffer_plays_to_its_end(s: BufferSource, frame: u64)
    requires
        s.wf(),
    ensures
        s.remaining().len() <= s.all().len(),
        s.remaining() == s.all().skip(s.all().len() - s.remaining().len()),
        s.all().len() <= u64::MAX ==> s.frames() * s.channel_count() == s.all().len(),
        s.all().len() <= u64::MAX ==> (s.reaches(frame) <==> frame <= s.frames()),
{
    s.lemma_wf();
    assert(s.remaining() =~= s.all().skip(s.all().len() - s.remaining().len()));
    let c = s.channels as int;
    let n = s.samples@.len() as int;
    lemma_fundamental_div_mod(n, c);
    assert(n / c * c == c * (n / c)) by (nonlinear_arith);
    assert(0 <= n / c <= n) by (nonlinear_arith)
        requires
            c >= 1,
            n >= 0,
    ;
    lemma_frame_order(frame as int, n / c, c);
}

} // verus!
