use super::misc::{block_outcome, BlockSubscriber};
use super::{
    DoOnError, Foreach, MonoDoFinally, MonoDoOnComplete, MonoFilter, MonoFlatMap, MonoScheduleOn,
    MonoTransform,
};
use crate::schedulers::Scheduler;
use crate::spi::{Publisher, Signal, Subscriber, REQUEST_MAX};
use vstd::prelude::*;

verus! {

/// A publisher of at most one value, with the operators that build on it.
pub trait Mono<T, E>: Publisher<Item = T, Error = E> {
    /// Subscribes and returns the outcome of the first signal after the
    /// subscription: `Ok(Some(v))` for a value, `Ok(None)` for completion
    /// without a value, `Err(e)` for an error.
    fn block(self) -> (r: Result<Option<T>, E>) where T: Send + 'static, E: Send + 'static,
        requires
            self.wf(),
            self.inline(),
            self.accepts(seq![REQUEST_MAX]),
            forall|sigs: Seq<Signal<T, E>>|
                #[trigger] self.emits(seq![REQUEST_MAX], sigs) ==> block_outcome(sigs) is Some,
        ensures
            exists|sigs: Seq<Signal<T, E>>|
                #[trigger] self.emits(seq![REQUEST_MAX], sigs) && block_outcome(sigs) == Some(r),
    {
        let sub = BlockSubscriber::new();
        let ghost publisher = self;
        let done = match self.subscribe(sub) {
            Some(d) => d,
            None => unreached(),
        };
        proof {
            let sigs = done.received().skip(0);
            assert(sigs =~= done.received());
            assert(publisher.emits(seq![REQUEST_MAX], sigs));
        }
        done.into_outcome()
    }

    /// Runs `f` on the error, if one comes, before passing it on.
    fn do_on_error<F>(self, f: F) -> (r: DoOnError<T, E, Self, F>) where
        F: 'static + Send + FnOnce(&E),
        ensures
            r.source() == self,
            r.action() == f,
    {
        DoOnError::new(self, f)
    }

    /// Runs `f` on the value, if one comes, before passing it on.
    fn do_on_success<F>(self, f: F) -> (r: Foreach<Self, T, F, E>) where
        F: 'static + Send + FnOnce(&T),
        ensures
            r.source() == self,
            r.action() == f,
    {
        Foreach::new(self, f)
    }

    /// Runs `f` on completion, before passing it on.
    fn do_on_complete<F>(self, f: F) -> (r: MonoDoOnComplete<T, E, Self, F>) where
        F: 'static + Send + FnOnce(),
        ensures
            r.source() == self,
            r.action() == f,
    {
        MonoDoOnComplete::new(self, f)
    }

    /// Passes the value through `transform`.
    fn map<A, F>(self, transform: F) -> (r: MonoTransform<Self, T, A, F, E>) where
        F: 'static + Send + Fn(T) -> A,
        ensures
            r.parent() == self,
            r.transformer() == transform,
    {
        MonoTransform::new(self, transform)
    }

    /// Makes a publisher of the value with `mapper` and delivers what it delivers.
    fn flatmap<A, M, F>(self, mapper: F) -> (r: MonoFlatMap<T, A, E, Self, M, F>) where
        Self: 'static + Send,
        T: 'static + Send,
        E: 'static + Send,
        A: 'static + Send,
        M: 'static + Send + Publisher<Item = A, Error = E>,
        F: 'static + Send + Fn(T) -> M,
        ensures
            r.source() == self,
            r.mapper() == mapper,
    {
        MonoFlatMap::new(self, mapper)
    }

    /// Runs `action` once, after completion or an error.
    fn do_finally<F>(self, action: F) -> (r: MonoDoFinally<T, E, Self, F>) where
        F: 'static + Send + FnOnce(),
        ensures
            r.source() == self,
            r.action() == action,
    {
        MonoDoFinally::new(self, action)
    }

    /// Passes the value on only when `predicate` accepts it.
    fn filter<F>(self, predicate: F) -> (r: MonoFilter<Self, T, F, E>) where
        F: 'static + Send + Fn(&T) -> bool,
        ensures
            r.source() == self,
            r.predicate() == predicate,
    {
        MonoFilter::new(self, predicate)
    }

    /// Subscribes to this publisher through `scheduler`.
    fn subscribe_on<C>(self, scheduler: C) -> (r: MonoScheduleOn<T, E, Self, C>) where
        Self: 'static + Send,
        C: Scheduler<Item = T, Error = E>,
        ensures
            r.source() == self,
            r.scheduler() == scheduler,
    {
        MonoScheduleOn::new(self, scheduler)
    }
}

} // verus!
