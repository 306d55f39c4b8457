use super::emitter::Emitter;
use super::lazy::InnerSubscriber;
use super::misc::EmptySubscription;
use crate::spi::{
    delivered, lemma_result_no_subscribe, lemma_subscribed_first, result_signals, subscribed_first,
    Publisher, Signal, Subscriber,
};
use vstd::prelude::*;

verus! {

/// A publisher fed from outside through its emitter: the first outcome
/// emitted is what the subscriber receives. Subscribing through `subscribe`
/// needs it emitted already; `attach` hands the subscriber its subscription
/// first, and the outcome can be fed afterwards.
pub struct Processor<T, E> {
    emitter: Emitter<T, E>,
}

impl<T, E> Processor<T, E> {
    /// The outcome emitted so far, if any.
    pub closed spec fn pending(&self) -> Option<Result<T, E>> {
        self.emitter.outcome()
    }

    pub fn new() -> (r: Processor<T, E>)
        ensures
            r.pending() == None::<Result<T, E>>,
    {
        Processor { emitter: Emitter::new() }
    }

    /// The emitter through which the outcome is fed.
    pub fn emitter(&mut self) -> (r: &mut Emitter<T, E>)
        ensures
            r.outcome() == old(self).pending(),
            final(self).pending() == final(r).outcome(),
    {
        &mut self.emitter
    }
}

impl<T, E> Processor<T, E> {
    /// Hands `subscriber` its subscription, whether or not an outcome has
    /// been emitted; the outcome reaches it through `Attached::feed`.
    pub fn attach<S>(self, subscriber: S) -> (r: Attached<T, E, S>) where
        S: Subscriber<Item = T, Error = E>,
        requires
            subscriber.inv(),
        ensures
            r.wf(),
            r.outcome() == self.pending(),
            r.base() == subscriber.received(),
            r.subscriber_frame() == subscriber.frame(),
    {
        let mut processor = self;
        let mut s = InnerSubscriber::new(subscriber);
        let mut empty = EmptySubscription::new();
        let ghost before = s;
        s.on_subscribe(&mut empty);
        proof {
            before.lemma_unfold();
            s.lemma_unfold();
            assert(s.log@ =~= seq![Signal::Subscribe]);
        }
        let slot = processor.emitter.take_outcome();
        Attached { inner: s, slot, frame: Ghost(subscriber.frame()) }
    }
}

/// A subscriber that has been handed its subscription by a processor and
/// waits for the processor's outcome.
pub struct Attached<T, E, S> {
    inner: InnerSubscriber<T, E, S>,
    slot: Option<Result<T, E>>,
    frame: Ghost<S>,
}

impl<T, E, S> Attached<T, E, S> where S: Subscriber<Item = T, Error = E> {
    /// The outcome emitted before the subscriber was attached, if any.
    pub closed spec fn outcome(&self) -> Option<Result<T, E>> {
        self.slot
    }

    /// What the subscriber had received before it was attached.
    pub closed spec fn base(&self) -> Seq<Signal<T, E>> {
        self.inner.base@
    }

    /// The subscriber as it was made.
    pub closed spec fn subscriber_frame(&self) -> S {
        self.frame@
    }

    /// The subscriber has received its subscription and nothing after it.
    pub closed spec fn wf(&self) -> bool {
        &&& self.inner.inv()
        &&& self.inner.log@ == seq![Signal::<T, E>::Subscribe]
        &&& self.inner.actual.frame() == self.frame@
    }

    /// An outcome was emitted before the subscriber was attached.
    pub fn is_ready(&self) -> (r: bool)
        ensures
            r == self.outcome() is Some,
    {
        self.slot.is_some()
    }

    /// Delivers the processor's outcome and hands the subscriber back: the
    /// outcome emitted before attaching if there was one, otherwise `outcome`.
    pub fn feed(self, outcome: Option<Result<T, E>>) -> (r: S)
        requires
            self.wf(),
            self.outcome() is Some || outcome is Some,
        ensures
            r.inv(),
            r.frame() == self.subscriber_frame(),
            self.base().is_prefix_of(r.received()),
            delivered(self.base(), r.received()) == seq![Signal::<T, E>::Subscribe] + result_signals(
                match self.outcome() {
                    Some(o) => o,
                    None => outcome.unwrap(),
                },
            ),
            subscribed_first(delivered(self.base(), r.received())),
    {
        let Attached { inner, slot, .. } = self;
        let mut s = inner;
        let o = match slot {
            Some(o) => o,
            None => match outcome {
                Some(o) => o,
                None => unreached(),
            },
        };
        let ghost res = o;
        proof {
            s.lemma_unfold();
        }
        s.receive(o);
        proof {
            s.lemma_unfold();
            assert(s.log@ =~= seq![Signal::<T, E>::Subscribe] + result_signals(res));
            lemma_result_no_subscribe(res);
            lemma_subscribed_first(result_signals(res));
        }
        s.into_actual()
    }
}

impl<T, E> Publisher for Processor<T, E> where T: Send + 'static, E: Send + 'static {
    type Item = T;

    type Error = E;

    /// An outcome has been emitted; otherwise a subscriber would wait forever.
    open spec fn wf(&self) -> bool {
        self.pending() is Some
    }

    open spec fn accepts(&self, demand: Seq<usize>) -> bool {
        true
    }

    /// After the subscription, the emitted outcome is delivered whatever the
    /// subscriber asks for.
    open spec fn emits(&self, demand: Seq<usize>, signals: Seq<Signal<T, E>>) -> bool {
        signals == seq![Signal::Subscribe] + result_signals(self.pending().unwrap())
    }

    open spec fn inline(&self) -> bool {
        true
    }

    fn subscribe<S>(self, subscriber: S) -> (r: Option<S>) where
        S: Subscriber<Item = T, Error = E> + Send + 'static,
     {
        let mut processor = self;
        let mut s = InnerSubscriber::new(subscriber);
        let mut empty = EmptySubscription::new();
        let ghost before = s;
        s.on_subscribe(&mut empty);
        proof {
            before.lemma_unfold();
            s.lemma_unfold();
        }
        let outcome = processor.emitter.take_outcome();
        match outcome {
            Some(r) => {
                let ghost res = r;
                s.receive(r);
                proof {
                    s.lemma_unfold();
                }
                assert(delivered(subscriber.received(), s.actual.received()) =~= seq![
                    Signal::Subscribe,
                ] + result_signals(res));
                proof {
                    lemma_result_no_subscribe(res);
                    lemma_subscribed_first(result_signals(res));
                }
            },
            None => {
                assert(false);
            },
        }
        Some(s.into_actual())
    }
}

} // verus!
