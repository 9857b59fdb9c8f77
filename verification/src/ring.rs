//! The multicast ring behind each event type of a bus.
use vstd::prelude::*;
use crate::capacity::{is_valid_capacity, Capacity};
use crate::chain::Event;

verus! {

#[verifier::external_type_specification]
#[verifier::external_body]
#[verifier::reject_recursive_types(T)]
pub struct ExRingPublisher<T>(gyre::Publisher<T>);

#[verifier::external_type_specification]
#[verifier::external_body]
#[verifier::reject_recursive_types(T)]
pub struct ExRingConsumer<T>(gyre::Consumer<T>);

/// The publishing end of a multicast ring of a fixed number of slots.
#[verifier::reject_recursive_types(E)]
pub struct Ring<E> {
    publisher: gyre::Publisher<E>,
    capacity: Ghost<nat>,
}

impl<E> Ring<E> {
    /// How many slots the ring buffer has: a publish waits while the event it
    /// publishes would be this many slots ahead of the slowest consumer.
    pub closed spec fn capacity(&self) -> nat {
        self.capacity@
    }

    /// The publishing end of the ring.
    pub closed spec fn end(&self) -> gyre::Publisher<E> {
        self.publisher
    }

    /// The publishing end, to publish on and to subscribe from.
    pub fn publisher(&self) -> (r: &gyre::Publisher<E>)
        ensures
            *r == self.end(),
    {
        &self.publisher
    }
}

/// Calls `gyre::channel`, which allocates a ring buffer of exactly `capacity`
/// slots and returns its publishing end and a first consumer; gyre panics
/// unless the capacity is at least 2 and a power of two, so that input is
/// required here. Claimed: the publishing end belongs to a ring of `capacity`
/// slots. Nothing else is claimed of the two ends: their state is hidden.
#[verifier::external_body]
fn ring_channel<E: Event>(capacity: usize) -> (ends: (Ring<E>, gyre::Consumer<E>))
    requires
        is_valid_capacity(capacity as int),
    ensures
        ends.0.capacity() == capacity,
{
    let (publisher, consumer) = gyre::channel::<E>(capacity);
    (Ring { publisher, capacity: Ghost(capacity as nat) }, consumer)
}

/// Opens the ring for one event type, with `capacity` slots, and keeps only
/// its publishing end: listeners subscribe to it later, each from the
/// position at which it subscribes.
pub fn open_ring<E: Event>(capacity: &Capacity) -> (r: Ring<E>)
    ensures
        r.capacity() == capacity@,
{
    let (ring, _first_consumer) = ring_channel::<E>(capacity.get());
    ring
}

} // verus!
