//! The two ends of the audio path: what is to be played and what was recorded.

use crate::ring::{
    accepted, ring_capacity, ring_new, ring_pop, ring_pop_slice, ring_push_slice, ring_samples,
    ring_within_capacity, SampleRing,
};
use vstd::prelude::*;

verus! {

/// Samples per second and channel, in both directions.
pub const SAMPLE_RATE: u32 = 48000;

/// How many received samples wait to be played at most.
pub const OUTPUT_BUFFER_SIZE: usize = 24576;

/// How many recorded samples wait to be sent at most.
pub const INPUT_BUFFER_SIZE: usize = 2048;

/// The format in which a sound device is opened.
#[derive(Debug, Clone, Copy, PartialEq, Eq, Structural)]
pub struct StreamSettings {
    /// The number of interleaved channels.
    pub channels: u16,
    /// Samples per second and channel.
    pub sample_rate: u32,
    /// Frames that the device asks for or delivers at a time.
    pub buffer_size: u32,
}

/// What a queue for `capacity` samples that holds `held` becomes when `data`
/// arrives: the front of `data` is appended as far as there is room, the rest
/// of it is lost.
pub open spec fn queued(held: Seq<i16>, capacity: nat, data: Seq<i16>) -> Seq<i16> {
    held + data.take(accepted(held.len(), capacity, data.len()))
}

/// What a queue that holds `held` becomes when `count` samples are asked of
/// it: the oldest leave, all of them if there are fewer.
pub open spec fn drained(held: Seq<i16>, count: nat) -> Seq<i16> {
    if count <= held.len() {
        held.skip(count as int)
    } else {
        Seq::empty()
    }
}

/// The next `count` samples to be played: what is queued, then silence.
pub open spec fn played(held: Seq<i16>, count: nat) -> Seq<i16> {
    Seq::new(
        count,
        |i: int|
            if i < held.len() {
                held[i]
            } else {
                0i16
            },
    )
}

/// `data` with the samples of a queue written over its front.
pub open spec fn refreshed(held: Seq<i16>, data: Seq<i16>) -> Seq<i16> {
    Seq::new(
        data.len(),
        |i: int|
            if i < held.len() {
                held[i]
            } else {
                data[i]
            },
    )
}

/// The samples that were received and wait to be played, both channels
/// interleaved.
pub struct AudioOutput {
    ring: SampleRing,
}

impl View for AudioOutput {
    type V = Seq<i16>;

    closed spec fn view(&self) -> Seq<i16> {
        ring_samples(self.ring)
    }
}

impl AudioOutput {
    /// The queue keeps to its size.
    pub closed spec fn wf(&self) -> bool {
        &&& ring_within_capacity(self.ring)
        &&& ring_capacity(self.ring) == OUTPUT_BUFFER_SIZE
    }

    /// There is never more in the queue than its size.
    pub proof fn lemma_bounded(&self)
        requires
            self.wf(),
        ensures
            self@.len() <= OUTPUT_BUFFER_SIZE,
    {
    }

    /// An output with nothing to play.
    pub fn new() -> (r: Self)
        ensures
            r.wf(),
            r@ == Seq::<i16>::empty(),
    {
        AudioOutput { ring: ring_new(OUTPUT_BUFFER_SIZE) }
    }

    /// The format in which the output device is opened.
    pub fn settings() -> (r: StreamSettings)
        ensures
            r == (StreamSettings { channels: 2, sample_rate: SAMPLE_RATE, buffer_size: 1024 }),
    {
        StreamSettings { channels: 2, sample_rate: SAMPLE_RATE, buffer_size: 1024 }
    }

    /// Queues `data` to be played. What finds no room is lost.
    pub fn push(&mut self, data: &[i16])
        requires
            old(self).wf(),
        ensures
            final(self).wf(),
            final(self)@ == queued(old(self)@, OUTPUT_BUFFER_SIZE as nat, data@),
    {
        ring_push_slice(&mut self.ring, data);
    }

    /// Gives the output device what it asks for: each place of `data` gets the
    /// next sample of the queue, or silence once the queue has run dry.
    pub fn fill(&mut self, data: &mut [i16])
        requires
            old(self).wf(),
        ensures
            final(self).wf(),
            final(data)@ == played(old(self)@, old(data)@.len()),
            final(self)@ == drained(old(self)@, old(data)@.len()),
    {
        let len = data.len();
        let ghost held = self@;
        let ghost total = data@.len();
        let mut i: usize = 0;
        while i < len
            invariant
                self.wf(),
                i <= len,
                len == data@.len(),
                len == total,
                self@ == drained(held, i as nat),
                forall|j: int| 0 <= j < i ==> data@[j] == played(held, total)[j],
            decreases len - i,
        {
            let sample: i16 = match ring_pop(&mut self.ring) {
                Some(s) => s,
                None => 0,
            };
            data[i] = sample;
            i += 1;
        }
        assert(data@ =~= played(held, total));
    }
}

/// The samples that were recorded and wait to be sent, one channel.
pub struct AudioInput {
    ring: SampleRing,
}

impl View for AudioInput {
    type V = Seq<i16>;

    closed spec fn view(&self) -> Seq<i16> {
        ring_samples(self.ring)
    }
}

impl AudioInput {
    /// The queue keeps to its size.
    pub closed spec fn wf(&self) -> bool {
        &&& ring_within_capacity(self.ring)
        &&& ring_capacity(self.ring) == INPUT_BUFFER_SIZE
    }

    /// There is never more in the queue than its size.
    pub proof fn lemma_bounded(&self)
        requires
            self.wf(),
        ensures
            self@.len() <= INPUT_BUFFER_SIZE,
    {
    }

    /// An input with nothing recorded yet.
    pub fn new() -> (r: Self)
        ensures
            r.wf(),
            r@ == Seq::<i16>::empty(),
    {
        AudioInput { ring: ring_new(INPUT_BUFFER_SIZE) }
    }

    /// The format in which the input device is opened.
    pub fn settings() -> (r: StreamSettings)
        ensures
            r == (StreamSettings { channels: 1, sample_rate: SAMPLE_RATE, buffer_size: 512 }),
    {
        StreamSettings { channels: 1, sample_rate: SAMPLE_RATE, buffer_size: 512 }
    }

    /// Takes what the input device recorded. What finds no room is lost.
    pub fn record(&mut self, data: &[i16])
        requires
            old(self).wf(),
        ensures
            final(self).wf(),
            final(self)@ == queued(old(self)@, INPUT_BUFFER_SIZE as nat, data@),
    {
        ring_push_slice(&mut self.ring, data);
    }

    /// Moves the oldest recorded samples to the front of `data`. Where too few
    /// were recorded, the rest of `data` keeps its values.
    pub fn pop(&mut self, data: &mut [i16])
        requires
            old(self).wf(),
        ensures
            final(self).wf(),
            final(data)@ == refreshed(old(self)@, old(data)@),
            final(self)@ == drained(old(self)@, old(data)@.len()),
    {
        let ghost held = self@;
        let ghost before = data@;
        ring_pop_slice(&mut self.ring, data);
        assert(data@ =~= refreshed(held, before));
        assert(self@ =~= drained(held, before.len()));
    }
}

/// What is queued and fits is played back unchanged and in order, and leaves
/// the queue.
pub proof fn lemma_queue_keeps_order(held: Seq<i16>, capacity: nat, data: Seq<i16>)
    requires
        held.len() + data.len() <= capacity,
    ensures
        queued(held, capacity, data) == held + data,
        played(queued(held, capacity, data), held.len() + data.len()) == held + data,
        drained(queued(held, capacity, data), held.len()) == data,
        drained(queued(held, capacity, data), held.len() + data.len()) == Seq::<i16>::empty(),
{
    assert(data.take(data.len() as int) =~= data);
    assert(queued(held, capacity, data) =~= held + data);
    assert(played(held + data, held.len() + data.len()) =~= held + data);
    assert((held + data).skip(held.len() as int) =~= data);
    assert((held + data).skip((held + data).len() as int) =~= Seq::<i16>::empty());
}

/// A queue never grows over its capacity, and never loses what it held.
pub proof fn lemma_queue_is_bounded(held: Seq<i16>, capacity: nat, data: Seq<i16>)
    requires
        held.len() <= capacity,
    ensures
        queued(held, capacity, data).len() <= capacity,
        queued(held, capacity, data).len() < capacity ==> queued(held, capacity, data) == held
            + data,
        held.is_prefix_of(queued(held, capacity, data)),
{
    assert(data.take(data.len() as int) =~= data);
}

/// What is played comes off the front of the queue: what was played and what
/// is left make up the queue, and silence is played only when nothing is left.
pub proof fn lemma_played_leaves_the_queue(held: Seq<i16>, count: nat)
    ensures
        played(held, count).len() == count,
        count <= held.len() ==> played(held, count) + drained(held, count) == held,
        count > held.len() ==> {
            &&& played(held, count).take(held.len() as int) == held
            &&& drained(held, count).len() == 0
            &&& forall|i: int| held.len() <= i < count ==> played(held, count)[i] == 0
        },
{
    if count <= held.len() {
        assert(played(held, count) + drained(held, count) =~= held);
    } else {
        assert(played(held, count).take(held.len() as int) =~= held);
    }
}

/// What is taken for sending comes off the front of the queue: what was taken
/// and what is left make up the queue, and where too little is queued the rest
/// of the old samples stays.
pub proof fn lemma_taken_leaves_the_queue(held: Seq<i16>, data: Seq<i16>)
    ensures
        refreshed(held, data).len() == data.len(),
        data.len() <= held.len() ==> refreshed(held, data) + drained(held, data.len()) == held,
        data.len() > held.len() ==> {
            &&& refreshed(held, data) == held + data.skip(held.len() as int)
            &&& drained(held, data.len()).len() == 0
        },
{
    if data.len() <= held.len() {
        assert(refreshed(held, data) + drained(held, data.len()) =~= held);
    } else {
        assert(refreshed(held, data) =~= held + data.skip(held.len() as int));
    }
}

/// The output keeps what arrives, in order, up to 24576 samples: the queue
/// grows to that size before anything is lost, and what is lost is the end.
pub proof fn lemma_output_keeps_what_fits(held: Seq<i16>, data: Seq<i16>)
    requires
        held.len() <= 24576,
    ensures
        held.len() + data.len() <= 24576 ==> queued(held, OUTPUT_BUFFER_SIZE as nat, data) == held
            + data,
        held.len() + data.len() > 24576 ==> queued(held, OUTPUT_BUFFER_SIZE as nat, data) == (held
            + data).take(24576),
{
    assert(queued(held, OUTPUT_BUFFER_SIZE as nat, data) =~= if held.len() + data.len() <= 24576 {
        held + data
    } else {
        (held + data).take(24576)
    });
}

/// The input keeps what was recorded, in order, up to 2048 samples: the queue
/// grows to that size before anything is lost, and what is lost is the end.
pub proof fn lemma_input_keeps_what_fits(held: Seq<i16>, data: Seq<i16>)
    requires
        held.len() <= 2048,
    ensures
        held.len() + data.len() <= 2048 ==> queued(held, INPUT_BUFFER_SIZE as nat, data) == held
            + data,
        held.len() + data.len() > 2048 ==> queued(held, INPUT_BUFFER_SIZE as nat, data) == (held
            + data).take(2048),
{
    assert(queued(held, INPUT_BUFFER_SIZE as nat, data) =~= if held.len() + data.len() <= 2048 {
        held + data
    } else {
        (held + data).take(2048)
    });
}

/// It makes no difference to the listener in what portions the output device
/// asks for samples.
pub proof fn lemma_portions_do_not_matter(held: Seq<i16>, first: nat, second: nat)
    ensures
        played(held, first) + played(drained(held, first), second) == played(held, first + second),
        drained(drained(held, first), second) == drained(held, first + second),
{
    assert(played(held, first) + played(drained(held, first), second) =~= played(
        held,
        first + second,
    ));
    assert(drained(drained(held, first), second) =~= drained(held, first + second));
}

} // verus!
