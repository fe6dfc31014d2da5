//! The ring buffer that decouples the network from the sound card.

use ringbuf::HeapRb;
use vstd::prelude::*;

verus! {

/// A bounded first-in, first-out buffer of samples, kept in a
/// `ringbuf::HeapRb`.
///
/// The buffer is only ever reached through an exclusive reference, so nothing
/// is added or removed between two calls.
#[verifier::external_body]
pub struct SampleRing {
    ring: HeapRb<i16>,
}

/// The samples that a ring holds, the oldest first.
pub uninterp spec fn ring_samples(ring: SampleRing) -> Seq<i16>;

/// The number of samples that a ring was made for.
pub uninterp spec fn ring_capacity(ring: SampleRing) -> nat;

/// A ring never holds more than it was made for.
pub open spec fn ring_within_capacity(ring: SampleRing) -> bool {
    ring_samples(ring).len() <= ring_capacity(ring)
}

/// How many of `len` samples a ring takes that holds `held` of `capacity`.
pub open spec fn accepted(held: nat, capacity: nat, len: nat) -> int {
    if len <= capacity - held {
        len as int
    } else {
        capacity - held
    }
}

/// `ringbuf::HeapRb::new`: a ring for `capacity` samples, without any in it.
/// It panics on a capacity of zero and on one whose samples, of two bytes each,
/// no allocation holds.
#[verifier::external_body]
pub(crate) fn ring_new(capacity: usize) -> (ring: SampleRing)
    requires
        0 < capacity,
        2 * capacity <= isize::MAX,
    ensures
        ring_samples(ring) == Seq::<i16>::empty(),
        ring_capacity(ring) == capacity,
{
    SampleRing { ring: HeapRb::new(capacity) }
}

/// `ringbuf::Producer::push_slice`: the longest prefix of `data` that finds
/// room is appended, and its length returned.
#[verifier::external_body]
pub(crate) fn ring_push_slice(ring: &mut SampleRing, data: &[i16]) -> (count: usize)
    requires
        ring_within_capacity(*old(ring)),
    ensures
        count == accepted(ring_samples(*old(ring)).len(), ring_capacity(*old(ring)), data@.len()),
        ring_samples(*final(ring)) == ring_samples(*old(ring)) + data@.take(count as int),
        ring_capacity(*final(ring)) == ring_capacity(*old(ring)),
{
    ring.ring.split_ref().0.push_slice(data)
}

/// `ringbuf::Consumer::pop`: the oldest sample is removed and returned; an
/// empty ring gives `None`.
#[verifier::external_body]
pub(crate) fn ring_pop(ring: &mut SampleRing) -> (sample: Option<i16>)
    ensures
        match sample {
            Some(value) => {
                &&& ring_samples(*old(ring)).len() > 0
                &&& value == ring_samples(*old(ring)).first()
                &&& ring_samples(*final(ring)) == ring_samples(*old(ring)).drop_first()
            },
            None => {
                &&& ring_samples(*old(ring)).len() == 0
                &&& ring_samples(*final(ring)) == ring_samples(*old(ring))
            },
        },
        ring_capacity(*final(ring)) == ring_capacity(*old(ring)),
{
    ring.ring.split_ref().1.pop()
}

/// `ringbuf::Consumer::pop_slice`: the oldest samples move to the front of
/// `data`, as many as there are and as fit, and their number is returned. The
/// rest of `data` keeps its values.
#[verifier::external_body]
pub(crate) fn ring_pop_slice(ring: &mut SampleRing, data: &mut [i16]) -> (count: usize)
    ensures
        count == if ring_samples(*old(ring)).len() <= old(data)@.len() {
            ring_samples(*old(ring)).len()
        } else {
            old(data)@.len()
        },
        final(data)@ == ring_samples(*old(ring)).take(count as int) + old(data)@.skip(
            count as int,
        ),
        ring_samples(*final(ring)) == ring_samples(*old(ring)).skip(count as int),
        ring_capacity(*final(ring)) == ring_capacity(*old(ring)),
{
    ring.ring.split_ref().1.pop_slice(data)
}

} // verus!
