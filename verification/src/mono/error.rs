use super::misc::EmptySubscription;
use super::spi::Mono;
use crate::spi::{Publisher, Signal, Subscriber};
use vstd::prelude::*;

verus! {

/// A publisher that fails with a fixed error.
pub struct MonoError<T, E> {
    e: E,
    _t: Ghost<T>,
}

impl<T, E> MonoError<T, E> {
    /// The error this publisher delivers.
    pub closed spec fn error(&self) -> E {
        self.e
    }

    pub(crate) fn new(e: E) -> (r: MonoError<T, E>)
        ensures
            r.error() == e,
    {
        MonoError { e, _t: Ghost(arbitrary()) }
    }
}

impl<T, E> Mono<T, E> for MonoError<T, E> {

}

impl<T, E> Publisher for MonoError<T, E> {
    type Item = T;

    type Error = E;

    open spec fn wf(&self) -> bool {
        true
    }

    open spec fn accepts(&self, demand: Seq<usize>) -> bool {
        true
    }

    /// After the subscription, the error is delivered whatever the
    /// subscriber requests.
    open spec fn emits(&self, demand: Seq<usize>, signals: Seq<Signal<T, E>>) -> bool {
        signals == seq![Signal::<T, E>::Subscribe, Signal::Error(self.error())]
    }

    open spec fn inline(&self) -> bool {
        true
    }

    fn subscribe<S>(self, subscriber: S) -> (r: Option<S>) where
        S: Subscriber<Item = T, Error = E> + Send + 'static,
     {
        let mut s = subscriber;
        let mut sub = EmptySubscription::new();
        s.on_subscribe(&mut sub);
        s.on_error(self.e);
        assert(s.received().skip(subscriber.received().len() as int) =~= seq![
            Signal::<T, E>::Subscribe,
            Signal::Error(self.error()),
        ]);
        Some(s)
    }
}

} // verus!
