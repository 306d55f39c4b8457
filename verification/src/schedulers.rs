//! Where a subscription happens.
use crate::spi::{delivered, subscribed_first, Publisher, Subscriber};
use vstd::prelude::*;

verus! {

/// Decides where a publisher is subscribed. An inline scheduler subscribes
/// before it returns and hands the subscriber back, served as the publisher
/// serves it. Any other scheduler hands the publisher and the subscriber, with
/// the requirements of `subscribe` met, to a `subscribe` on another thread,
/// and hands nothing back.
pub trait Scheduler: Sized {
    type Item;

    type Error;

    /// The subscription happens on the caller's thread, before `schedule`
    /// returns. A scheduler defined outside of verified code keeps this
    /// default.
    open spec fn inline(&self) -> bool {
        false
    }

    fn schedule<P, S>(&self, publisher: P, subscriber: S) -> (r: Option<S>) where
        P: Publisher<Item = Self::Item, Error = Self::Error> + Send + 'static,
        S: Subscriber<Item = Self::Item, Error = Self::Error> + Send + 'static,
        requires
            publisher.wf(),
            publisher.accepts(subscriber.demand()),
            subscriber.inv(),
        ensures
            r is Some <==> self.inline() && publisher.inline(),
            r matches Some(s) ==> {
                &&& s.inv()
                &&& s.frame() == subscriber.frame()
                &&& subscriber.received().is_prefix_of(s.received())
                &&& subscribed_first(delivered(subscriber.received(), s.received()))
                &&& publisher.emits(subscriber.demand(), delivered(subscriber.received(), s.received()))
            },
    ;
}

/// A scheduler that subscribes on the caller's own thread.
pub fn immediate<T, E>() -> (r: ImmediateScheduler<T, E>) {
    ImmediateScheduler::new()
}

/// Subscribes right away, on the caller's thread.
pub struct ImmediateScheduler<T, E> {
    _t: Ghost<(T, E)>,
}

impl<T, E> ImmediateScheduler<T, E> {
    pub(crate) fn new() -> (r: ImmediateScheduler<T, E>) {
        ImmediateScheduler { _t: Ghost(arbitrary()) }
    }
}

impl<T, E> Scheduler for ImmediateScheduler<T, E> {
    type Item = T;

    type Error = E;

    open spec fn inline(&self) -> bool {
        true
    }

    fn schedule<P, S>(&self, publisher: P, subscriber: S) -> (r: Option<S>) where
        P: Publisher<Item = T, Error = E> + Send + 'static,
        S: Subscriber<Item = T, Error = E> + Send + 'static,
     {
        publisher.subscribe(subscriber)
    }
}

} // verus!
