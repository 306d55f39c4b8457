use super::spi::Mono;
use crate::spi::{delivered, lemma_subscribed_first, no_subscribe, Publisher, Signal, Subscriber, Subscription};
use vstd::prelude::*;

verus! {

/// Some request in `demand` asks for at least one item.
pub open spec fn asks(demand: Seq<usize>) -> bool {
    exists|i: int| 0 <= i < demand.len() && #[trigger] demand[i] > 0
}

/// What `just(v)` delivers after the subscription to a subscriber whose
/// requests are `demand`: a copy of `v` followed by completion, once, as soon
/// as some request asks for at least one item; nothing otherwise.
pub open spec fn just_answer<T: Clone, E>(v: T, demand: Seq<usize>, sigs: Seq<Signal<T, E>>) -> bool {
    if asks(demand) {
        &&& sigs.len() == 2
        &&& sigs[0] matches Signal::Next(x) && cloned(v, x)
        &&& sigs[1] == Signal::<T, E>::Complete
    } else {
        sigs.len() == 0
    }
}

/// The signals that `just(v)` delivers: the subscription, then its answer.
pub open spec fn just_emits<T: Clone, E>(v: T, demand: Seq<usize>, sigs: Seq<Signal<T, E>>) -> bool {
    &&& sigs.len() >= 1
    &&& sigs[0] == Signal::<T, E>::Subscribe
    &&& just_answer(v, demand, sigs.skip(1))
}

/// A publisher of one fixed value.
pub struct MonoJust<T, E> where T: Clone {
    t: T,
    _e: Ghost<E>,
}

impl<T, E> Clone for MonoJust<T, E> where T: Clone {
    fn clone(&self) -> (r: Self)
        ensures
            cloned(self.value(), r.value()),
    {
        MonoJust { t: self.t.clone(), _e: Ghost(self._e@) }
    }
}

impl<T, E> MonoJust<T, E> where T: Clone {
    /// The value this publisher delivers.
    pub closed spec fn value(&self) -> T {
        self.t
    }

    pub(crate) fn new(t: T) -> (r: MonoJust<T, E>)
        ensures
            r.value() == t,
    {
        MonoJust { t, _e: Ghost(arbitrary()) }
    }
}

impl<T, E> Mono<T, E> for MonoJust<T, E> where T: Clone {

}

impl<T, E> Publisher for MonoJust<T, E> where T: Clone {
    type Item = T;

    type Error = E;

    open spec fn wf(&self) -> bool {
        true
    }

    open spec fn accepts(&self, demand: Seq<usize>) -> bool {
        true
    }

    open spec fn emits(&self, demand: Seq<usize>, signals: Seq<Signal<T, E>>) -> bool {
        just_emits(self.value(), demand, signals)
    }

    open spec fn inline(&self) -> bool {
        true
    }

    fn subscribe<S>(self, subscriber: S) -> (r: Option<S>) where
        S: Subscriber<Item = T, Error = E> + Send + 'static,
     {
        let mut s = subscriber;
        let mut sub = JustSubscription::new();
        s.on_subscribe(&mut sub);
        let ghost subscribed = s.received();
        sub.deliver(&self.t, &mut s);
        proof {
            assert(sub.requested() =~= subscriber.demand());
            let sigs = delivered(subscriber.received(), s.received());
            let b = subscriber.received();
            assert(s.received()[b.len() as int] == subscribed[b.len() as int]);
            assert(sigs.skip(1) =~= delivered(subscribed, s.received()));
            assert(sigs[0] == Signal::<T, E>::Subscribe);
            assert(sigs =~= seq![Signal::<T, E>::Subscribe] + sigs.skip(1));
            lemma_subscribed_first(sigs.skip(1));
        }
        Some(s)
    }
}

/// Records the subscriber's requests; the value is then delivered once, for
/// the first request of at least one item.
struct JustSubscription {
    requests: Vec<usize>,
}

impl JustSubscription {
    fn new() -> (r: JustSubscription)
        ensures
            r.requested() == Seq::<usize>::empty(),
    {
        JustSubscription { requests: Vec::new() }
    }

    /// Answers the first recorded request of at least one item with a copy
    /// of the value and completion; later requests get nothing.
    fn deliver<T: Clone, E, S: Subscriber<Item = T, Error = E>>(&self, value: &T, subscriber: &mut S)
        requires
            old(subscriber).inv(),
        ensures
            final(subscriber).inv(),
            final(subscriber).demand() == old(subscriber).demand(),
            final(subscriber).frame() == old(subscriber).frame(),
            old(subscriber).received().is_prefix_of(final(subscriber).received()),
            just_answer(*value, self.requested(), delivered(old(subscriber).received(), final(subscriber).received())),
            no_subscribe(delivered(old(subscriber).received(), final(subscriber).received())),
    {
        let ghost base = subscriber.received();
        let mut answered = false;
        let mut i: usize = 0;
        while i < self.requests.len()
            invariant
                0 <= i <= self.requests.len(),
                subscriber.inv(),
                subscriber.demand() == old(subscriber).demand(),
                subscriber.frame() == old(subscriber).frame(),
                base == old(subscriber).received(),
                base.is_prefix_of(subscriber.received()),
                answered == asks(self.requests@.take(i as int)),
                just_answer(*value, self.requests@.take(i as int), delivered(base, subscriber.received())),
                no_subscribe(delivered(base, subscriber.received())),
            decreases self.requests.len() - i,
        {
            let ghost before = self.requests@.take(i as int);
            assert(self.requests@.take(i + 1) =~= before.push(self.requests@[i as int]));
            if !answered && self.requests[i] > 0 {
                let c = value.clone();
                subscriber.on_next(c);
                subscriber.on_complete();
                answered = true;
                proof {
                    let sigs = delivered(base, subscriber.received());
                    assert(sigs =~= seq![Signal::<T, E>::Next(c), Signal::Complete]);
                    assert(self.requests@.take(i + 1)[i as int] > 0);
                }
            } else {
                proof {
                    if asks(self.requests@.take(i + 1)) {
                        if !answered {
                            let k = choose|k: int| 0 <= k < i + 1 && #[trigger] self.requests@.take(i + 1)[k] > 0;
                            if k < i {
                                assert(before[k] > 0);
                            }
                        }
                    } else {
                        if answered {
                            let k = choose|k: int| 0 <= k < i && #[trigger] before[k] > 0;
                            assert(self.requests@.take(i + 1)[k] > 0);
                        }
                    }
                }
            }
            proof {
                if asks(before) {
                    let k = choose|k: int| 0 <= k < i && #[trigger] before[k] > 0;
                    assert(self.requests@.take(i + 1)[k] > 0);
                }
            }
            i = i + 1;
        }
        assert(self.requests@.take(i as int) =~= self.requests@);
    }
}

impl Subscription for JustSubscription {
    closed spec fn requested(&self) -> Seq<usize> {
        self.requests@
    }

    closed spec fn cancellable(&self) -> bool {
        false
    }

    closed spec fn cancelled(&self) -> bool {
        false
    }

    fn request(&mut self, n: usize) {
        self.requests.push(n);
    }

    fn cancel(&mut self) {
    }
}

} // verus!
