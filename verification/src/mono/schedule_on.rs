use super::spi::Mono;
use crate::schedulers::Scheduler;
use crate::spi::{Publisher, Signal, Subscriber};
use vstd::prelude::*;

verus! {

/// A publisher whose source is subscribed through a scheduler; it delivers
/// exactly what its source delivers.
pub struct MonoScheduleOn<T, E, M, C> {
    source: M,
    scheduler: C,
    _t: Ghost<(T, E)>,
}

impl<T, E, M, C> MonoScheduleOn<T, E, M, C> {
    /// The publisher that is scheduled.
    pub closed spec fn source(&self) -> M {
        self.source
    }

    /// The scheduler that subscribes it.
    pub closed spec fn scheduler(&self) -> C {
        self.scheduler
    }

    pub fn new(source: M, scheduler: C) -> (r: MonoScheduleOn<T, E, M, C>)
        ensures
            r.source() == source,
            r.scheduler() == scheduler,
    {
        MonoScheduleOn { source, scheduler, _t: Ghost(arbitrary()) }
    }
}

impl<T, E, M, C> Mono<T, E> for MonoScheduleOn<T, E, M, C> where
    M: 'static + Send + Mono<T, E>,
    C: Scheduler<Item = T, Error = E>,
 {

}

impl<T, E, M, C> Publisher for MonoScheduleOn<T, E, M, C> where
    M: 'static + Send + Mono<T, E>,
    C: Scheduler<Item = T, Error = E>,
 {
    type Item = T;

    type Error = E;

    open spec fn wf(&self) -> bool {
        self.source().wf()
    }

    open spec fn accepts(&self, demand: Seq<usize>) -> bool {
        self.source().accepts(demand)
    }

    open spec fn emits(&self, demand: Seq<usize>, signals: Seq<Signal<T, E>>) -> bool {
        self.source().emits(demand, signals)
    }

    open spec fn inline(&self) -> bool {
        self.scheduler().inline() && self.source().inline()
    }

    fn subscribe<S>(self, subscriber: S) -> (r: Option<S>) where
        S: Subscriber<Item = T, Error = E> + Send + 'static,
     {
        self.scheduler.schedule(self.source, subscriber)
    }
}

} // verus!
