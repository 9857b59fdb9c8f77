//! Event chains: steps placed in front of an emitter.
//!
//! A chain holds the emitter that events finally reach and the step that
//! transforms each event on its way there. Prepending a step wraps the whole
//! chain, so the step prepended last is the first to see an event.
use core::marker::PhantomData;
use vstd::prelude::*;
use vstd::pervasive::cloned;

verus! {

/// Anything that can travel on the bus.
pub trait Event: Send + Sync + 'static {

}

impl<T: Send + Sync + 'static> Event for T {

}

/// Context that a conveyor injects into every event.
pub trait State: Clone + Send + Sync + 'static {

}

impl<T: Clone + Send + Sync + 'static> State for T {

}

/// A step that hands every event on unchanged.
#[derive(Debug, Clone, Copy)]
pub struct Identity;

impl Identity {
    /// Hands the event on unchanged.
    pub fn process<E>(self, event: E) -> (r: E)
        ensures
            r == event,
    {
        event
    }
}

/// An emitter with a step in front of it.
#[derive(Debug, Clone)]
pub struct Chain<T, U> {
    emitter: T,
    step: U,
}

impl<T> Chain<T, Identity> {
    /// A chain with no transformation in front of `emitter`.
    pub fn from_emitter(emitter: T) -> (r: Chain<T, Identity>)
        ensures
            r.target() == emitter,
            r.front() == Identity,
    {
        Chain { emitter, step: Identity }
    }
}

impl<T, U> Chain<T, U> {
    /// What events reach once they have passed the step.
    pub closed spec fn target(self) -> T {
        self.emitter
    }

    /// The step in front.
    pub closed spec fn front(self) -> U {
        self.step
    }

    /// Places `step` in front of the whole chain: it will see every event first.
    pub fn prepend<P>(self, step: P) -> (r: Chain<Chain<T, U>, P>)
        ensures
            r.target() == self,
            r.front() == step,
    {
        Chain { emitter: self, step }
    }

    /// What events reach once they have passed the step.
    pub fn emitter(&self) -> (r: &T)
        ensures
            *r == self.target(),
    {
        &self.emitter
    }

    /// The step in front.
    pub fn step(&self) -> (r: &U)
        ensures
            *r == self.front(),
    {
        &self.step
    }

    /// Gives up the step and returns the emitter behind it.
    pub fn into_emitter(self) -> (r: T)
        ensures
            r == self.target(),
    {
        self.emitter
    }
}

/// A sender of events of type `E` that passes each event through a step first.
pub struct WithStep<E, T, U> {
    emitter: T,
    step: U,
    _phantom: PhantomData<E>,
}

impl<E, T, U> WithStep<E, T, U> {
    /// The sender behind the step.
    pub closed spec fn target(self) -> T {
        self.emitter
    }

    /// The step.
    pub closed spec fn front(self) -> U {
        self.step
    }

    /// Places `step` in front of `emitter`.
    pub fn new(emitter: T, step: U) -> (r: Self)
        ensures
            r.target() == emitter,
            r.front() == step,
    {
        WithStep { emitter, step, _phantom: PhantomData }
    }

    /// The sender behind the step.
    pub fn emitter(&self) -> (r: &T)
        ensures
            *r == self.target(),
    {
        &self.emitter
    }

    /// The step.
    pub fn step(&self) -> (r: &U)
        ensures
            *r == self.front(),
    {
        &self.step
    }
}

impl<E, T: Clone, U: Clone> Clone for WithStep<E, T, U> {
    fn clone(&self) -> (r: Self)
        ensures
            cloned(self.target(), r.target()),
            cloned(self.front(), r.front()),
    {
        Self::new(self.emitter.clone(), self.step.clone())
    }
}

/// A sender of events of type `E` that passes each event through a processor first.
pub struct WithProcessor<E, T, U> {
    publisher: T,
    processor: U,
    _phantom: PhantomData<E>,
}

impl<E, T, U> WithProcessor<E, T, U> {
    /// The sender behind the processor.
    pub closed spec fn target(self) -> T {
        self.publisher
    }

    /// The processor.
    pub closed spec fn front(self) -> U {
        self.processor
    }

    /// Places `processor` in front of `publisher`.
    pub fn new(publisher: T, processor: U) -> (r: Self)
        ensures
            r.target() == publisher,
            r.front() == processor,
    {
        WithProcessor { publisher, processor, _phantom: PhantomData }
    }

    /// The sender behind the processor.
    pub fn publisher(&self) -> (r: &T)
        ensures
            *r == self.target(),
    {
        &self.publisher
    }

    /// The processor.
    pub fn processor(&self) -> (r: &U)
        ensures
            *r == self.front(),
    {
        &self.processor
    }
}

impl<E, T: Clone, U: Clone> Clone for WithProcessor<E, T, U> {
    fn clone(&self) -> (r: Self)
        ensures
            cloned(self.target(), r.target()),
            cloned(self.front(), r.front()),
    {
        Self::new(self.publisher.clone(), self.processor.clone())
    }
}

/// Turns each event into the event that reaches the emitter behind it.
pub trait Processor<E> {
    /// The event that comes out.
    type Output;

    /// Turns `event` into the event that is passed on.
    fn process(self, event: E) -> Self::Output;
}

impl<T1: State, E> Processor<E> for (T1,) {
    type Output = (T1, E);

    fn process(self, event: E) -> (r: (T1, E))
        ensures
            r == (self.0, event),
    {
        (self.0, event)
    }
}

impl<T1: State, T2: State, E> Processor<E> for (T1, T2) {
    type Output = (T1, T2, E);

    fn process(self, event: E) -> (r: (T1, T2, E))
        ensures
            r == (self.0, self.1, event),
    {
        (self.0, self.1, event)
    }
}

/// A value that carries an emitter together with state to inject into events.
pub trait Conveyor: Send + Sync {
    /// The emitter that events reach.
    type Emit;

    /// What injects the state into events.
    type Processor;

    /// The emitter that events reach.
    fn emit(&self) -> &Self::Emit;

    /// A fresh processor for the next event.
    fn processor(&self) -> Self::Processor;
}

impl<T1: State, U: Send + Sync> Conveyor for (T1, U) {
    type Emit = U;

    type Processor = (T1,);

    fn emit(&self) -> (r: &U)
        ensures
            *r == self.1,
    {
        &self.1
    }

    fn processor(&self) -> (r: (T1,))
        ensures
            cloned(self.0, r.0),
    {
        (self.0.clone(),)
    }
}

impl<T1: State, T2: State, U: Send + Sync> Conveyor for (T1, T2, U) {
    type Emit = U;

    type Processor = (T1, T2);

    fn emit(&self) -> (r: &U)
        ensures
            *r == self.2,
    {
        &self.2
    }

    fn processor(&self) -> (r: (T1, T2))
        ensures
            cloned(self.0, r.0),
            cloned(self.1, r.1),
    {
        (self.0.clone(), self.1.clone())
    }
}

/// A value that carries an emitter together with a step for its events.
pub trait Pipeline: Send + Sync {
    /// The emitter that events reach.
    type Emit;

    /// The step that events pass first.
    type Processor;

    /// The emitter that events reach.
    fn emit(&self) -> &Self::Emit;

    /// A fresh step for the next event.
    fn step(&self) -> Self::Processor;
}

} // verus!
