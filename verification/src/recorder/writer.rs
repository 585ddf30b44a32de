//! The writer's loop, one step at a time: drain the ring into the file.
use super::wav::{
    after_writes, law_threshold_keeps_sizes_in_range, FileWrite, FinalizedWav, WavFile, WavWriter,
};
use crate::frames::{lemma_whole, lemma_whole_monotone, smaller, whole, whole_frames};
use crate::ring::{
    feed_of, law_ring_keeps_order, pop_into, ready, ready_slots, sent, source_of, taken, took_more,
};
use rtrb::{Consumer, Producer};
use vstd::prelude::*;

verus! {

/// How many samples are drained at once: a few audio buffers' worth.
pub const DRAIN_BLOCK: usize = 4_096;

/// What a finished writer leaves.
#[derive(Debug)]
pub struct WriterOutcome {
    /// `None` where the take was cancelled: the file was not finalized and is to
    /// be deleted.
    pub finalized: Option<FinalizedWav>,
    pub path: String,
}

/// What the writer does next.
pub enum WriterStep {
    /// The take was cancelled; the file stays as it is.
    Cancelled,
    /// Perform the writes and go on.
    Write { writer: WavWriter, writes: Vec<FileWrite> },
    /// Perform the writes, flush the file, and end.
    Finalize { finalized: FinalizedWav, writes: Vec<FileWrite> },
    /// Nothing to do: wait a little.
    Park { writer: WavWriter },
}

/// Can the writer take another block?
pub open spec fn can_continue(f: WavFile) -> bool {
    &&& f.rf64_threshold_bytes <= 0x1_0000_0000
    &&& f.total_bytes() + 4 * DRAIN_BLOCK <= u64::MAX
}

/// `samples` in whole frames, at most a block, and all that were ready up to that:
/// at least those known to be, `known_ready`, and but for `still_ready` all that the
/// look at the ring found.
pub open spec fn is_block(
    samples: Seq<u32>,
    channels: u16,
    known_ready: nat,
    still_ready: nat,
) -> bool {
    &&& 0 < samples.len() <= DRAIN_BLOCK
    &&& samples.len() % (channels as nat) == 0
    &&& samples.len() >= whole(smaller(known_ready as int, DRAIN_BLOCK as int), channels as int)
    &&& samples.len() == whole(
        smaller((samples.len() + still_ready) as int, DRAIN_BLOCK as int),
        channels as int,
    )
}

/// The file holds exactly what was taken out of the ring.
pub open spec fn in_step(f: WavFile, c: Consumer<u32>) -> bool {
    f.samples == taken(c)
}

/// One step of the writer, with the two flags as they stand. A cancel comes
/// before everything. Else whole frames that are ready go to the file, a block
/// at a time; only when there are none is a stop obeyed.
pub fn writer_step(
    consumer: &mut Consumer<u32>,
    writer: WavWriter,
    stop: bool,
    cancel: bool,
) -> (r: WriterStep)
    requires
        writer.wf(),
        can_continue(writer@),
    ensures
        source_of(*final(consumer)) == source_of(*old(consumer)),
        cancel <==> r is Cancelled,
        cancel ==> *final(consumer) == *old(consumer),
        r matches WriterStep::Write { writer: w, writes } ==> {
            let block = taken(*final(consumer)).skip(taken(*old(consumer)).len() as int);
            &&& is_block(
                block,
                writer@.channels,
                ready(*old(consumer)),
                ready(*final(consumer)),
            )
            &&& took_more(*old(consumer), *final(consumer), block)
            &&& w.wf()
            &&& w@.samples == writer@.samples + block
            &&& in_step(writer@, *old(consumer)) ==> in_step(w@, *final(consumer))
            &&& w@.image == after_writes(writer@.image, writes@)
            &&& w@.sample_rate == writer@.sample_rate
            &&& w@.channels == writer@.channels
            &&& w@.rf64_threshold_bytes == writer@.rf64_threshold_bytes
            &&& w@.promoted == (writer@.promoted || w@.total_bytes()
                >= writer@.rf64_threshold_bytes)
        },
        r is Finalize || r is Park ==> {
            &&& taken(*final(consumer)) == taken(*old(consumer))
            &&& ready(*old(consumer)) <= ready(*final(consumer)) < writer@.channels
            &&& stop <==> r is Finalize
        },
        r matches WriterStep::Finalize { finalized, writes } ==> {
            &&& finalized.frame_count == writer@.frames()
            &&& finalized.bytes_written == writer@.total_bytes()
            &&& finalized.promoted_to_rf64 == writer@.promoted
            &&& after_writes(writer@.image, writes@) == writer@.final_image()
        },
        r matches WriterStep::Park { writer: w } ==> w == writer,
{
    if cancel {
        return WriterStep::Cancelled;
    }
    let channels: u16 = writer.channels();
    proof {
        writer.law_file_is_well_formed();
    }
    let ghost start = *consumer;
    let available: usize = ready_slots(consumer);
    let n: usize = whole_frames(available, DRAIN_BLOCK, channels);
    proof {
        let known = smaller(ready(start) as int, DRAIN_BLOCK as int);
        let seen = smaller(available as int, DRAIN_BLOCK as int);
        lemma_whole(seen, channels as int);
        lemma_whole_monotone(known, seen, channels as int);
    }
    if n > 0 {
        let mut block: Vec<u32> = vec![0u32; n];
        let _ = pop_into(consumer, block.as_mut_slice(), n);
        proof {
            assert(block@.take(n as int) =~= block@);
            assert(taken(*consumer).skip(taken(start).len() as int) =~= block@);
        }
        let mut w: WavWriter = writer;
        let writes: Vec<FileWrite> = w.write_frames(block.as_slice());
        WriterStep::Write { writer: w, writes }
    } else if stop {
        proof {
            law_threshold_keeps_sizes_in_range(writer@);
        }
        let (finalized, writes) = writer.finalize();
        WriterStep::Finalize { finalized, writes }
    } else {
        WriterStep::Park { writer }
    }
}

/// The samples in a take's file are those that went into the ring, in order and
/// without a gap, up to some point.
pub proof fn law_file_holds_what_was_captured(f: WavFile, c: Consumer<u32>, p: Producer<u32>)
    requires
        in_step(f, c),
        source_of(c) == feed_of(p),
        taken(c).is_prefix_of(source_of(c)),
        sent(p).is_prefix_of(feed_of(p)),
        taken(c).len() <= sent(p).len(),
    ensures
        f.samples.is_prefix_of(sent(p)),
{
    law_ring_keeps_order(p, c);
}

/// A block is of whole frames, of 4096 samples at most; what was known to be ready goes
/// into it up to that, but for less than a frame.
pub proof fn law_blocks_take_what_is_ready(
    samples: Seq<u32>,
    channels: u16,
    known_ready: nat,
    still_ready: nat,
)
    requires
        channels > 0,
        is_block(samples, channels, known_ready, still_ready),
    ensures
        0 < samples.len() <= 4_096,
        samples.len() % (channels as nat) == 0,
        known_ready < samples.len() + channels || 4_096 < samples.len() + channels,
        still_ready < channels || 4_096 < samples.len() + channels,
{
    lemma_whole(smaller(known_ready as int, DRAIN_BLOCK as int), channels as int);
    lemma_whole(
        smaller((samples.len() + still_ready) as int, DRAIN_BLOCK as int),
        channels as int,
    );
}

} // verus!
