//! Listener shells around user handlers, and the event limit of bounded listeners.
//!
//! The handler a listener wraps is awaited by the task loop; these types keep the
//! handler and decide, for the bounded ones, when the listener has seen enough
//! events and asks its task to stop.
use core::marker::PhantomData;
use vstd::prelude::*;

verus! {

/// A bounded listener has reached its limit once it has taken `times` events.
pub open spec fn limit_reached(count: nat, times: nat) -> bool {
    count >= times
}

/// A listener that runs a handler on every event.
pub struct FromFn<E, F>(F, PhantomData<E>);

impl<E, F> FromFn<E, F> {
    /// Wraps a handler.
    pub fn new(f: F) -> (r: Self)
        ensures
            r.handler() == f,
    {
        FromFn(f, PhantomData)
    }

    /// The wrapped handler.
    pub closed spec fn handler(self) -> F {
        self.0
    }

    /// Mutable access to the wrapped handler.
    pub fn handler_mut(&mut self) -> (r: &mut F)
        ensures
            *r == old(self).handler(),
            final(self).handler() == *final(r),
    {
        &mut self.0
    }
}

/// Builds a [`FromFn`] listener from a handler.
pub fn from_fn<E, F>(f: F) -> (r: FromFn<E, F>)
    ensures
        r.handler() == f,
{
    FromFn::new(f)
}

/// A listener that runs a handler on every event and hands it the task's
/// cancellation token, so that the handler can stop its own task.
pub struct FromFnWithCancel<E, F>(F, PhantomData<E>);

impl<E, F> FromFnWithCancel<E, F> {
    /// Wraps a handler.
    pub fn new(f: F) -> (r: Self)
        ensures
            r.handler() == f,
    {
        FromFnWithCancel(f, PhantomData)
    }

    /// The wrapped handler.
    pub closed spec fn handler(self) -> F {
        self.0
    }

    /// Mutable access to the wrapped handler.
    pub fn handler_mut(&mut self) -> (r: &mut F)
        ensures
            *r == old(self).handler(),
            final(self).handler() == *final(r),
    {
        &mut self.0
    }
}

/// Builds a [`FromFnWithCancel`] listener from a handler.
pub fn from_fn_with_cancel<E, F>(f: F) -> (r: FromFnWithCancel<E, F>)
    ensures
        r.handler() == f,
{
    FromFnWithCancel::new(f)
}

/// A listener that runs a handler on every event until its task is cancelled.
pub struct On<E, F>(F, PhantomData<E>);

impl<E, F> On<E, F> {
    /// The wrapped handler.
    pub closed spec fn handler(self) -> F {
        self.0
    }

    /// Mutable access to the wrapped handler.
    pub fn handler_mut(&mut self) -> (r: &mut F)
        ensures
            *r == old(self).handler(),
            final(self).handler() == *final(r),
    {
        &mut self.0
    }
}

/// Builds an [`On`] listener from a handler.
pub fn on<E, F>(f: F) -> (r: On<E, F>)
    ensures
        r.handler() == f,
{
    On(f, PhantomData)
}

/// A listener that runs its handler on one event and then stops its task.
pub struct Once<E, F>(F, PhantomData<E>);

impl<E, F> Once<E, F> {
    /// The wrapped handler.
    pub closed spec fn handler(self) -> F {
        self.0
    }

    /// Mutable access to the wrapped handler.
    pub fn handler_mut(&mut self) -> (r: &mut F)
        ensures
            *r == old(self).handler(),
            final(self).handler() == *final(r),
    {
        &mut self.0
    }
}

/// Builds a [`Once`] listener from a handler.
pub fn once<E, F>(f: F) -> (r: Once<E, F>)
    ensures
        r.handler() == f,
{
    Once(f, PhantomData)
}

/// Counts the events of a bounded listener against its limit.
pub struct Counter {
    count: usize,
    times: usize,
}

impl Counter {
    /// Events counted so far.
    pub closed spec fn counted(self) -> nat {
        self.count as nat
    }

    /// The limit.
    pub closed spec fn limit(self) -> nat {
        self.times as nat
    }

    /// A counter for a limit of `times` events; the limit must be positive.
    pub fn new(times: usize) -> (r: Counter)
        requires
            times > 0,
        ensures
            r.counted() == 0,
            r.limit() == times,
    {
        Counter { count: 0, times }
    }

    /// Events counted so far.
    pub fn count(&self) -> (r: usize)
        ensures
            r == self.counted(),
    {
        self.count
    }

    /// Counts one more event and tells whether the limit is now reached.
    pub fn try_increment(&mut self) -> (reached: bool)
        requires
            old(self).counted() < usize::MAX,
        ensures
            final(self).counted() == old(self).counted() + 1,
            final(self).limit() == old(self).limit(),
            reached == limit_reached(final(self).counted(), final(self).limit()),
    {
        self.count = self.count + 1;
        self.count >= self.times
    }
}

/// A listener that runs its handler on at most a given number of events.
pub struct Many<E, F>(F, Counter, PhantomData<E>);

impl<E, F> Many<E, F> {
    /// The wrapped handler.
    pub closed spec fn handler(self) -> F {
        self.0
    }

    /// The event counter.
    pub closed spec fn counter(self) -> Counter {
        self.1
    }

    /// Mutable access to the wrapped handler.
    pub fn handler_mut(&mut self) -> (r: &mut F)
        ensures
            *r == old(self).handler(),
            final(self).handler() == *final(r),
            final(self).counter() == old(self).counter(),
    {
        &mut self.0
    }

    /// Events counted so far.
    pub fn count(&self) -> (r: usize)
        ensures
            r == self.counter().counted(),
    {
        self.1.count()
    }

    /// Counts an incoming event; the result says whether the task must be
    /// cancelled once the handler has run on it.
    pub fn record_event(&mut self) -> (reached: bool)
        requires
            old(self).counter().counted() < usize::MAX,
        ensures
            final(self).handler() == old(self).handler(),
            final(self).counter().counted() == old(self).counter().counted() + 1,
            final(self).counter().limit() == old(self).counter().limit(),
            reached == limit_reached(
                final(self).counter().counted(),
                final(self).counter().limit(),
            ),
    {
        self.1.try_increment()
    }
}

/// Builds a [`Many`] listener that takes at most `times` events; `times` must be positive.
pub fn many<E, F>(times: usize, f: F) -> (r: Many<E, F>)
    requires
        times > 0,
    ensures
        r.handler() == f,
        r.counter().counted() == 0,
        r.counter().limit() == times,
{
    Many(f, Counter::new(times), PhantomData)
}

/// Wraps any listener so that it takes at most `times` events.
pub struct WithTimes<E, L> {
    listener: L,
    count: usize,
    times: usize,
    _phantom: PhantomData<E>,
}

impl<E, L> WithTimes<E, L> {
    /// The wrapped listener.
    pub closed spec fn inner(self) -> L {
        self.listener
    }

    /// Events taken so far.
    pub closed spec fn handled(self) -> nat {
        self.count as nat
    }

    /// The limit.
    pub closed spec fn limit(self) -> nat {
        self.times as nat
    }

    /// Wraps `listener` with a limit of `times` events; `times` must be positive.
    pub fn new(times: usize, listener: L) -> (r: Self)
        requires
            times > 0,
        ensures
            r.inner() == listener,
            r.handled() == 0,
            r.limit() == times,
    {
        WithTimes { listener, count: 0, times, _phantom: PhantomData }
    }

    /// Events taken so far.
    pub fn count(&self) -> (r: usize)
        ensures
            r == self.handled(),
    {
        self.count
    }

    /// The limit.
    pub fn times(&self) -> (r: usize)
        ensures
            r == self.limit(),
    {
        self.times
    }

    /// Mutable access to the wrapped listener.
    pub fn listener_mut(&mut self) -> (r: &mut L)
        ensures
            *r == old(self).inner(),
            final(self).inner() == *final(r),
            final(self).handled() == old(self).handled(),
            final(self).limit() == old(self).limit(),
    {
        &mut self.listener
    }

    /// Counts an incoming event; the result says whether the task must be
    /// cancelled once the wrapped listener has handled it.
    pub fn record_event(&mut self) -> (reached: bool)
        requires
            old(self).handled() < usize::MAX,
        ensures
            final(self).inner() == old(self).inner(),
            final(self).handled() == old(self).handled() + 1,
            final(self).limit() == old(self).limit(),
            reached == limit_reached(final(self).handled(), final(self).limit()),
    {
        self.count = self.count + 1;
        self.count >= self.times
    }
}

} // verus!
