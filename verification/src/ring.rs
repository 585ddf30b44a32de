//! The lock-free ring that hands samples from one thread to another.
//!
//! The ring is `rtrb`'s single-producer single-consumer queue. Its two ends live
//! on different threads, so neither end knows how far the other has come; what
//! is stated of an end is what that end itself has done, and what both ends have
//! in common.
use rtrb::{Consumer, Producer};
use vstd::prelude::*;

verus! {

#[verifier::external_type_specification]
#[verifier::external_body]
#[verifier::reject_recursive_types(T)]
pub struct ExProducer<T>(Producer<T>);

#[verifier::external_type_specification]
#[verifier::external_body]
#[verifier::reject_recursive_types(T)]
pub struct ExConsumer<T>(Consumer<T>);

/// How much audio a ring holds by default: one second. It absorbs a stall of
/// the thread on the other side.
pub const DEFAULT_HEADROOM_MS: u32 = 1_000;

/// The items that went in through `p` so far, in order.
pub uninterp spec fn sent(p: Producer<u32>) -> Seq<u32>;

/// The items that came out through `c` so far, in order.
pub uninterp spec fn taken(c: Consumer<u32>) -> Seq<u32>;

/// All items that go in through `p` in the lifetime of its ring.
pub uninterp spec fn feed_of(p: Producer<u32>) -> Seq<u32>;

/// All items that go in, in the lifetime of its ring, at the other end of `c`.
pub uninterp spec fn source_of(c: Consumer<u32>) -> Seq<u32>;

/// The size of the ring that `p` feeds.
pub uninterp spec fn capacity(p: Producer<u32>) -> nat;

/// The free slots that `p` knows of. There may be more: the other end can have
/// freed some since `p` last looked.
pub uninterp spec fn room(p: Producer<u32>) -> nat;

/// The items ready to be taken that `c` knows of. There may be more.
pub uninterp spec fn ready(c: Consumer<u32>) -> nat;

/// What did not change when an end was only looked at.
pub open spec fn same_producer(p: Producer<u32>, q: Producer<u32>) -> bool {
    &&& sent(q) == sent(p)
    &&& feed_of(q) == feed_of(p)
    &&& capacity(q) == capacity(p)
}

/// The items in `s` went in behind those that were in before.
pub open spec fn sent_more(p: Producer<u32>, q: Producer<u32>, s: Seq<u32>) -> bool {
    &&& sent(q) == sent(p) + s
    &&& sent(q).is_prefix_of(feed_of(q))
    &&& feed_of(q) == feed_of(p)
    &&& capacity(q) == capacity(p)
}

/// The items in `s` came out behind those that had come out before.
pub open spec fn took_more(c: Consumer<u32>, d: Consumer<u32>, s: Seq<u32>) -> bool {
    &&& taken(d) == taken(c) + s
    &&& taken(d).is_prefix_of(source_of(d))
    &&& source_of(d) == source_of(c)
}

/// `rtrb::RingBuffer::new`: an empty ring of `capacity` slots. Its two ends have
/// done nothing yet, and what goes in at the one is what comes out at the other.
/// The ring's memory is taken here; a size that cannot be allocated panics.
#[verifier::external_body]
fn new_ring(capacity: usize) -> (r: (Producer<u32>, Consumer<u32>))
    requires
        4 * capacity <= isize::MAX,
    ensures
        sent(r.0) == Seq::<u32>::empty(),
        taken(r.1) == Seq::<u32>::empty(),
        source_of(r.1) == feed_of(r.0),
        self::capacity(r.0) == capacity,
        room(r.0) == capacity,
        ready(r.1) == 0,
{
    rtrb::RingBuffer::new(capacity)
}

/// `rtrb::Producer::slots`: looks how many slots are free. Afterwards the
/// producer knows of exactly those; it forgets none that it knew of.
#[verifier::external_body]
pub(crate) fn free_slots(p: &mut Producer<u32>) -> (n: usize)
    ensures
        room(*old(p)) <= n <= capacity(*old(p)),
        room(*final(p)) == n,
        same_producer(*old(p), *final(p)),
{
    p.slots()
}

/// `rtrb::Producer::push`: puts one item in. It always fits where the producer
/// knows of a free slot; where the ring is full, nothing changes, and the producer
/// knows that no slot is free.
#[verifier::external_body]
pub(crate) fn push_one(p: &mut Producer<u32>, item: u32) -> (ok: bool)
    ensures
        room(*old(p)) > 0 ==> ok && room(*final(p)) == room(*old(p)) - 1,
        ok ==> sent_more(*old(p), *final(p), seq![item]),
        !ok ==> same_producer(*old(p), *final(p)) && room(*final(p)) == 0,
{
    p.push(item).is_ok()
}

/// `rtrb::Producer::push_entire_slice`: puts all items in, or none where there
/// is not room for all. They always fit where the producer knows of enough free
/// slots; after a refusal it knows of too few.
#[verifier::external_body]
pub(crate) fn push_slice(p: &mut Producer<u32>, items: &[u32]) -> (ok: bool)
    ensures
        items@.len() <= room(*old(p)) ==> ok && room(*final(p)) == room(*old(p)) - items@.len(),
        items@.len() > capacity(*old(p)) ==> !ok,
        ok ==> sent_more(*old(p), *final(p), items@),
        !ok ==> same_producer(*old(p), *final(p)) && room(*final(p)) < items@.len(),
{
    p.push_entire_slice(items).is_ok()
}

/// `rtrb::Consumer::slots`: looks how many items are ready. Afterwards the
/// consumer knows of exactly those; it forgets none that it knew of.
#[verifier::external_body]
pub(crate) fn ready_slots(c: &mut Consumer<u32>) -> (n: usize)
    ensures
        ready(*old(c)) <= n,
        ready(*final(c)) == n,
        taken(*final(c)) == taken(*old(c)),
        source_of(*final(c)) == source_of(*old(c)),
{
    c.slots()
}

/// `rtrb::Consumer::pop_entire_slice`, on the first `n` places of `dst`: takes
/// `n` items out and copies them there, or changes nothing where fewer are
/// ready. There are always enough where the consumer knows of enough; after a
/// refusal it knows of too few.
#[verifier::external_body]
pub(crate) fn pop_into(c: &mut Consumer<u32>, dst: &mut [u32], n: usize) -> (ok: bool)
    requires
        n <= old(dst)@.len(),
    ensures
        n <= ready(*old(c)) ==> ok && ready(*final(c)) == ready(*old(c)) - n,
        final(dst)@.len() == old(dst)@.len(),
        ok ==> took_more(*old(c), *final(c), final(dst)@.take(n as int)),
        ok ==> final(dst)@.skip(n as int) == old(dst)@.skip(n as int),
        !ok ==> final(dst)@ == old(dst)@ && ready(*final(c)) < n,
        !ok ==> taken(*final(c)) == taken(*old(c)) && source_of(*final(c)) == source_of(*old(c)),
{
    c.pop_entire_slice(&mut dst[..n]).is_ok()
}

/// The capacity of a ring in samples: `headroom_ms` of audio, a whole number of
/// frames.
pub open spec fn ring_samples(sample_rate: u32, channels: u16, headroom_ms: u32) -> int {
    (sample_rate * headroom_ms) / 1_000 * channels
}

/// Builds a ring that holds `headroom_ms` of audio.
pub fn build_ring(sample_rate: u32, channels: u16, headroom_ms: u32) -> (r: (
    Producer<u32>,
    Consumer<u32>,
))
    requires
        4 * ring_samples(sample_rate, channels, headroom_ms) <= isize::MAX,
    ensures
        capacity(r.0) == ring_samples(sample_rate, channels, headroom_ms),
        room(r.0) == capacity(r.0),
        ready(r.1) == 0,
        sent(r.0) == Seq::<u32>::empty(),
        taken(r.1) == Seq::<u32>::empty(),
        source_of(r.1) == feed_of(r.0),
{
    proof {
        let a = sample_rate as int;
        let h = headroom_ms as int;
        assert(0 <= a * h <= 0xFFFF_FFFF * 0xFFFF_FFFF) by (nonlinear_arith)
            requires
                0 <= a <= 0xFFFF_FFFF,
                0 <= h <= 0xFFFF_FFFF,
        ;
    }
    let frames: u64 = (sample_rate as u64) * (headroom_ms as u64) / 1_000;
    let samples: u64 = frames * (channels as u64);
    new_ring(samples as usize)
}

/// What comes out of a ring is what went in, in order: neither end ever sees
/// anything at a place but what the other end sees there.
pub proof fn law_ring_keeps_order(p: Producer<u32>, c: Consumer<u32>)
    requires
        source_of(c) == feed_of(p),
        sent(p).is_prefix_of(feed_of(p)),
        taken(c).is_prefix_of(source_of(c)),
    ensures
        taken(c).len() <= sent(p).len() ==> taken(c).is_prefix_of(sent(p)),
        sent(p).len() <= taken(c).len() ==> sent(p).is_prefix_of(taken(c)),
{
}

/// A ring holds whole frames.
pub proof fn law_ring_holds_whole_frames(sample_rate: u32, channels: u16, headroom_ms: u32)
    requires
        channels > 0,
    ensures
        ring_samples(sample_rate, channels, headroom_ms) % channels as int == 0,
{
    vstd::arithmetic::div_mod::lemma_mod_multiples_basic(
        (sample_rate * headroom_ms) / 1_000,
        channels as int,
    );
}

/// A ring holds its headroom of audio, to the frame: a thousand times its samples are
/// no more than the samples of a thousand times the headroom, and one frame more would
/// be.
pub proof fn law_ring_holds_its_headroom(sample_rate: u32, channels: u16, headroom_ms: u32)
    requires
        channels > 0,
    ensures
        1_000 * ring_samples(sample_rate, channels, headroom_ms) <= sample_rate * headroom_ms
            * channels < 1_000 * (ring_samples(sample_rate, channels, headroom_ms) + channels),
{
    let total = sample_rate * headroom_ms;
    let q = total / 1_000;
    let c = channels as int;
    assert(1_000 * (q * c) <= total * c < 1_000 * (q * c + c)) by (nonlinear_arith)
        requires
            1_000 * q <= total < 1_000 * q + 1_000,
            c > 0,
    ;
}

/// By default a ring holds one second of audio.
pub proof fn law_default_ring_holds_a_second(sample_rate: u32, channels: u16)
    ensures
        ring_samples(sample_rate, channels, DEFAULT_HEADROOM_MS) == sample_rate * channels,
{
    assert(sample_rate * 1_000 / 1_000 == sample_rate);
}

} // verus!
