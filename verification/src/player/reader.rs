//! The reader's loop, one step at a time: pull from the source, push into the
//! ring, and carry out seeks.
use super::signals::TransportSignals;
use super::source::{PlaybackSource, SeekError};
use crate::frames::{lemma_whole, lemma_whole_monotone, smaller, whole, whole_frames};
use crate::ring::{free_slots, push_slice, room, same_producer, sent, sent_more};
use rtrb::Producer;
use vstd::prelude::*;
use vstd::slice::slice_subrange;

verus! {

/// How many frames are pulled at once.
pub const READ_BLOCK_FRAMES: usize = 4_096;

/// What the reader carries from step to step.
#[derive(Debug, Clone, Copy, PartialEq, Eq, Structural)]
pub struct ReaderState {
    /// A flush was asked for and the output callback has not answered yet.
    pub waiting_for_audio_ack: bool,
}

impl ReaderState {
    /// Not waiting.
    pub fn new() -> (r: ReaderState)
        ensures
            !r.waiting_for_audio_ack,
    {
        ReaderState { waiting_for_audio_ack: false }
    }
}

/// What the reader does next.
#[derive(Debug, Clone, Copy, PartialEq, Eq, Structural)]
pub enum ReaderAction {
    /// Go on at once.
    Continue,
    /// Wait a little: the ring is full, the source has ended, or a flush is not
    /// answered yet.
    Sleep,
    /// Playback stops; the loop ends.
    Exit,
}

/// The stages of a step, by the flags it finds.
pub enum StepKind {
    /// A stop was asked for.
    Stop,
    /// A seek was asked for and the flush is still to be.
    AskFlush,
    /// The flush was asked for and is not done.
    AwaitFlush,
    /// The flush is done: the source is to be repositioned.
    Reposition,
    /// The source has ended.
    Idle,
    /// The normal case.
    Pull,
}

/// Which stage the flags ask for.
pub open spec fn step_kind(state: ReaderState, signals: TransportSignals) -> StepKind {
    if signals.stop_request {
        StepKind::Stop
    } else if signals.seek_pending {
        if !state.waiting_for_audio_ack {
            StepKind::AskFlush
        } else if signals.flush_request {
            StepKind::AwaitFlush
        } else {
            StepKind::Reposition
        }
    } else if signals.eof_seen {
        StepKind::Idle
    } else {
        StepKind::Pull
    }
}

/// The flags once the reader has asked for a flush. Playback that had ended goes
/// on.
pub open spec fn flush_asked(s: TransportSignals) -> TransportSignals {
    TransportSignals { eof_seen: false, playback_complete: false, flush_request: true, ..s }
}

/// What a step comes to before the source is touched.
#[derive(Debug, Clone, Copy, PartialEq, Eq, Structural)]
pub enum ReaderTurn {
    /// The step is over.
    Over(ReaderAction),
    /// The source is to be moved to this frame; [`finish_seek`] ends the step.
    Seek(u64),
    /// Up to this many samples, whole frames, are to be pulled from the source;
    /// [`finish_pull`] ends the step.
    Pull(usize),
}

/// The samples that a pull asks for where `known` slots of the ring are known to
/// be free: whole frames, as many as scratch buffer and ring have room for.
pub open spec fn asked(scratch: nat, known: nat, channels: u16) -> int {
    smaller(whole(scratch as int, channels as int), whole(known as int, channels as int))
}

/// The first half of a step, for a source of `channels` channels and a scratch
/// buffer of `scratch_len` samples. A stop ends the reader. A pending seek comes
/// next: the reader asks the output callback to flush the ring and waits for the
/// answer before the source is moved. Once the source has ended the reader idles.
/// Else a block is to be pulled.
pub fn next_turn(
    state: &mut ReaderState,
    producer: &mut Producer<u32>,
    signals: &mut TransportSignals,
    channels: u16,
    scratch_len: usize,
) -> (r: ReaderTurn)
    requires
        channels > 0,
    ensures
        match step_kind(*old(state), *old(signals)) {
            StepKind::Stop => {
                &&& r == ReaderTurn::Over(ReaderAction::Exit)
                &&& *final(state) == *old(state)
                &&& *final(signals) == *old(signals)
                &&& *final(producer) == *old(producer)
            },
            StepKind::AskFlush => {
                &&& r == ReaderTurn::Over(ReaderAction::Sleep)
                &&& final(state).waiting_for_audio_ack
                &&& *final(signals) == flush_asked(*old(signals))
                &&& *final(producer) == *old(producer)
            },
            StepKind::AwaitFlush | StepKind::Idle => {
                &&& r == ReaderTurn::Over(ReaderAction::Sleep)
                &&& *final(state) == *old(state)
                &&& *final(signals) == *old(signals)
                &&& *final(producer) == *old(producer)
            },
            StepKind::Reposition => {
                &&& r == ReaderTurn::Seek(old(signals).seek_target)
                &&& *final(state) == *old(state)
                &&& *final(signals) == *old(signals)
                &&& *final(producer) == *old(producer)
            },
            StepKind::Pull => {
                &&& *final(state) == *old(state)
                &&& *final(signals) == *old(signals)
                &&& same_producer(*old(producer), *final(producer))
                &&& room(*final(producer)) >= room(*old(producer))
                &&& match r {
                    ReaderTurn::Pull(n) => {
                        &&& n > 0
                        &&& n % (channels as usize) == 0
                        &&& n <= room(*final(producer))
                        &&& n == asked(scratch_len as nat, room(*final(producer)), channels)
                    },
                    ReaderTurn::Over(a) => a == ReaderAction::Sleep && asked(
                        scratch_len as nat,
                        room(*final(producer)),
                        channels,
                    ) == 0,
                    ReaderTurn::Seek(_) => false,
                }
            },
        },
{
    if signals.stop_request {
        return ReaderTurn::Over(ReaderAction::Exit);
    }
    if signals.seek_pending {
        if !state.waiting_for_audio_ack {
            signals.eof_seen = false;
            signals.playback_complete = false;
            signals.flush_request = true;
            state.waiting_for_audio_ack = true;
            return ReaderTurn::Over(ReaderAction::Sleep);
        }
        if signals.flush_request {
            return ReaderTurn::Over(ReaderAction::Sleep);
        }
        return ReaderTurn::Seek(signals.seek_target);
    }
    if signals.eof_seen {
        return ReaderTurn::Over(ReaderAction::Sleep);
    }
    proof {
        lemma_whole(scratch_len as int, channels as int);
        lemma_whole(room(*producer) as int, channels as int);
    }
    let pull_capacity: usize = whole_frames(scratch_len, scratch_len, channels);
    if pull_capacity == 0 {
        return ReaderTurn::Over(ReaderAction::Sleep);
    }
    let slots: usize = free_slots(producer);
    let ring_writable: usize = whole_frames(slots, slots, channels);
    proof {
        lemma_whole(slots as int, channels as int);
    }
    if ring_writable == 0 {
        return ReaderTurn::Over(ReaderAction::Sleep);
    }
    if pull_capacity < ring_writable {
        ReaderTurn::Pull(pull_capacity)
    } else {
        ReaderTurn::Pull(ring_writable)
    }
}

/// Ends the seek handshake once the source was told to move: the seek is no
/// longer pending, and a source that did not move counts as ended.
pub fn finish_seek(state: &mut ReaderState, signals: &mut TransportSignals, moved: bool) -> (r:
    ReaderAction)
    ensures
        r == ReaderAction::Continue,
        !final(state).waiting_for_audio_ack,
        *final(signals) == (TransportSignals {
            seek_pending: false,
            eof_seen: old(signals).eof_seen || !moved,
            ..*old(signals)
        }),
{
    if !moved {
        signals.eof_seen = true;
    }
    signals.seek_pending = false;
    state.waiting_for_audio_ack = false;
    ReaderAction::Continue
}

/// Ends a pull: the block that came from the source goes into the ring. A block
/// that is shorter than what was asked for, `want`, means that the source has
/// ended.
pub fn finish_pull(
    producer: &mut Producer<u32>,
    signals: &mut TransportSignals,
    block: &[u32],
    want: usize,
) -> (r: ReaderAction)
    requires
        block@.len() <= want,
        0 < want <= room(*old(producer)),
    ensures
        *final(signals) == (TransportSignals {
            eof_seen: old(signals).eof_seen || block@.len() < want,
            ..*old(signals)
        }),
        if block@.len() == 0 {
            &&& r == ReaderAction::Sleep
            &&& *final(producer) == *old(producer)
        } else {
            &&& r == ReaderAction::Continue
            &&& sent_more(*old(producer), *final(producer), block@)
            &&& room(*final(producer)) == room(*old(producer)) - block@.len()
        },
{
    if block.len() == 0 {
        signals.eof_seen = true;
        return ReaderAction::Sleep;
    }
    let _ = push_slice(producer, block);
    if block.len() < want {
        signals.eof_seen = true;
    }
    ReaderAction::Continue
}

/// What a pull does: `k` samples, whole frames, move from the source into the
/// ring, as many as the scratch buffer and the ring have room for and the source
/// has left. `eof` tells whether the source is seen to have ended: exactly where it
/// gave less than was asked for.
pub open spec fn pulled(
    left: Seq<u32>,
    left_after: Seq<u32>,
    channels: u16,
    scratch: nat,
    p: Producer<u32>,
    q: Producer<u32>,
    eof: bool,
    r: ReaderAction,
) -> bool {
    let k = sent(q).len() - sent(p).len();
    let block = whole(scratch as int, channels as int);
    let fits = smaller(block, whole(room(p) as int, channels as int));
    let want = asked(scratch, (room(q) + k) as nat, channels);
    &&& 0 <= k <= left.len()
    &&& k % channels as int == 0
    &&& smaller(fits, left.len() as int) <= k <= block
    &&& room(p) <= room(q) + k
    &&& k == smaller(want, left.len() as int)
    &&& left_after == left.skip(k)
    &&& if k > 0 {
        sent_more(p, q, left.take(k))
    } else {
        same_producer(p, q)
    }
    &&& r == if k > 0 {
        ReaderAction::Continue
    } else {
        ReaderAction::Sleep
    }
    &&& eof == (k < want)
    &&& eof ==> left_after.len() == 0
}

/// What moving the source comes to. The seek is no longer pending. A frame that the
/// source reaches is pulled next, and whether the source counts as ended stays as
/// it was; a source that did not move counts as ended, which is so of every frame
/// beyond its end.
pub open spec fn repositioned<S: PlaybackSource>(
    before: S,
    after: S,
    s: TransportSignals,
    t: TransportSignals,
) -> bool {
    let at = s.seek_target * before.channel_count();
    let moved = at <= before.all().len() && after.remaining() == before.all().skip(at);
    &&& t == (TransportSignals { seek_pending: false, eof_seen: t.eof_seen, ..s })
    &&& s.eof_seen ==> t.eof_seen
    &&& before.reaches(s.seek_target) ==> moved && t.eof_seen == s.eof_seen
    &&& !t.eof_seen ==> moved
    &&& at > before.all().len() ==> t.eof_seen
}

/// One step of the reader.
///
/// A stop ends it. A pending seek comes next: the reader asks the output callback
/// to flush the ring, waits for the answer, and then repositions the source; a
/// source that cannot be repositioned counts as ended. Once the source has ended
/// the reader idles. Else it pulls a block and hands it over.
pub fn reader_step<S: PlaybackSource>(
    state: &mut ReaderState,
    source: &mut S,
    producer: &mut Producer<u32>,
    signals: &mut TransportSignals,
    scratch: &mut [u32],
) -> (r: ReaderAction)
    requires
        old(source).wf(),
    ensures
        final(source).wf(),
        final(source).all() == old(source).all(),
        final(source).channel_count() == old(source).channel_count(),
        final(scratch)@.len() == old(scratch)@.len(),
        match step_kind(*old(state), *old(signals)) {
            StepKind::Stop => {
                &&& r == ReaderAction::Exit
                &&& *final(state) == *old(state)
                &&& *final(signals) == *old(signals)
                &&& *final(source) == *old(source)
                &&& *final(producer) == *old(producer)
            },
            StepKind::AskFlush => {
                &&& r == ReaderAction::Sleep
                &&& final(state).waiting_for_audio_ack
                &&& *final(signals) == flush_asked(*old(signals))
                &&& *final(source) == *old(source)
                &&& *final(producer) == *old(producer)
            },
            StepKind::AwaitFlush | StepKind::Idle => {
                &&& r == ReaderAction::Sleep
                &&& *final(state) == *old(state)
                &&& *final(signals) == *old(signals)
                &&& *final(source) == *old(source)
                &&& *final(producer) == *old(producer)
            },
            StepKind::Reposition => {
                &&& r == ReaderAction::Continue
                &&& !final(state).waiting_for_audio_ack
                &&& repositioned(*old(source), *final(source), *old(signals), *final(signals))
                &&& *final(producer) == *old(producer)
            },
            StepKind::Pull => {
                &&& *final(state) == *old(state)
                &&& *final(signals) == (TransportSignals {
                    eof_seen: final(signals).eof_seen,
                    ..*old(signals)
                })
                &&& pulled(
                    old(source).remaining(),
                    final(source).remaining(),
                    old(source).channel_count(),
                    old(scratch)@.len(),
                    *old(producer),
                    *final(producer),
                    final(signals).eof_seen,
                    r,
                )
                &&& sent(*final(producer)) + final(source).remaining() == sent(*old(producer))
                    + old(source).remaining()
            },
        },
{
    let channels: u16 = source.channels();
    let len: usize = scratch.len();
    let ghost left = source.remaining();
    let ghost start = *producer;
    proof {
        source.lemma_wf();
        lemma_whole(len as int, channels as int);
        lemma_whole(room(start) as int, channels as int);
        assert(left.skip(0) =~= left);
        assert(0int % channels as int == 0) by (nonlinear_arith)
            requires
                channels > 0,
        ;
    }
    let turn: ReaderTurn = next_turn(state, producer, signals, channels, len);
    proof {
        if step_kind(*old(state), *old(signals)) is Pull {
            lemma_whole(room(*producer) as int, channels as int);
            lemma_whole_monotone(room(start) as int, room(*producer) as int, channels as int);
        }
    }
    match turn {
        ReaderTurn::Over(action) => action,
        ReaderTurn::Seek(frame) => {
            let moved: Result<(), SeekError> = source.seek(frame);
            finish_seek(state, signals, moved.is_ok())
        },
        ReaderTurn::Pull(want) => {
            let frames: usize = {
                let (front, _rest) = scratch.split_at_mut(want);
                source.pull(front)
            };
            let ch: usize = channels as usize;
            proof {
                source.lemma_wf();
                vstd::arithmetic::div_mod::lemma_mod_multiples_basic(frames as int, ch as int);
                assert(frames * ch == smaller(want as int, left.len() as int));
            }
            let block: &[u32] = slice_subrange(scratch, 0, frames * ch);
            proof {
                assert(block@ =~= left.take(frames * ch));
            }
            let r: ReaderAction = finish_pull(producer, signals, block, want);
            proof {
                assert(sent(*producer) + source.remaining() =~= sent(start) + left);
            }
            r
        },
    }
}

/// A pull asks for whole frames, no more than scratch buffer and ring have room for, and
/// one frame more would not fit in one of the two.
pub proof fn law_pull_asks_for_what_fits(scratch: nat, known: nat, channels: u16)
    requires
        channels > 0,
    ensures
        ({
            let n = asked(scratch, known, channels);
            &&& 0 <= n <= scratch
            &&& n <= known
            &&& n % (channels as int) == 0
            &&& n + channels > scratch || n + channels > known
        }),
{
    lemma_whole(scratch as int, channels as int);
    lemma_whole(known as int, channels as int);
}

/// What a pull does: the next samples of the source go into the ring behind those that
/// are in it, in order and in whole frames; the source keeps the rest. Where a frame
/// would fit and the source has one, at least one moves. The source counts as ended
/// only once nothing is left of it.
pub proof fn law_pull_moves_the_next_samples(
    left: Seq<u32>,
    left_after: Seq<u32>,
    channels: u16,
    scratch: nat,
    p: Producer<u32>,
    q: Producer<u32>,
    eof: bool,
    r: ReaderAction,
)
    requires
        channels > 0,
        pulled(left, left_after, channels, scratch, p, q, eof, r),
    ensures
        sent(p).is_prefix_of(sent(q)),
        sent(q) + left_after == sent(p) + left,
        (sent(q).len() - sent(p).len()) % (channels as int) == 0,
        sent(q).len() - sent(p).len() <= scratch,
        scratch >= channels && room(p) >= channels && left.len() >= channels ==> sent(q).len()
            > sent(p).len(),
        scratch >= channels && room(p) >= channels && left.len() == 0 ==> eof,
        eof ==> left_after.len() == 0,
        (r == ReaderAction::Sleep) == (sent(q).len() == sent(p).len()),
        r != ReaderAction::Exit,
{
    let k = sent(q).len() - sent(p).len();
    lemma_whole(scratch as int, channels as int);
    lemma_whole(room(p) as int, channels as int);
    lemma_whole((room(q) + k) as int, channels as int);
    assert(sent(q) + left_after =~= sent(p) + left);
    if k == 0 {
        assert(left.skip(0) =~= left);
    }
}

/// A stop comes before everything; a seek comes before the source is read on, and the
/// source is moved only once the flush that was asked for is done.
pub proof fn law_stop_and_seek_come_first(state: ReaderState, signals: TransportSignals)
    ensures
        signals.stop_request <==> step_kind(state, signals) is Stop,
        !signals.stop_request && signals.seek_pending <==> step_kind(state, signals) is AskFlush
            || step_kind(state, signals) is AwaitFlush || step_kind(state, signals) is Reposition,
        step_kind(state, signals) is AskFlush ==> !state.waiting_for_audio_ack,
        step_kind(state, signals) is AwaitFlush ==> signals.flush_request,
        step_kind(state, signals) is Reposition ==> state.waiting_for_audio_ack
            && !signals.flush_request,
        step_kind(state, signals) is Idle ==> signals.eof_seen,
        step_kind(state, signals) is Pull ==> !signals.eof_seen,
{
}

/// Asking for a flush raises its flag and takes back that playback has ended; the seek
/// and its target stand.
pub proof fn law_asking_for_a_flush(s: TransportSignals)
    ensures
        flush_asked(s).flush_request,
        !flush_asked(s).eof_seen,
        !flush_asked(s).playback_complete,
        flush_asked(s).seek_pending == s.seek_pending,
        flush_asked(s).seek_target == s.seek_target,
        flush_asked(s).stop_request == s.stop_request,
{
}

} // verus!
