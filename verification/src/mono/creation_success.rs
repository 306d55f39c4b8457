use super::spi::Mono;
use crate::spi::{
    delivered, lemma_subscribed_first, no_subscribe, Publisher, Signal, Subscriber, Subscription,
};
use vstd::prelude::*;

verus! {

/// What `success(g)` delivers after the subscription to a subscriber whose
/// requests are `demand`: the first request, whatever amount it asks for,
/// runs `g` once, and its value is delivered and followed by completion;
/// later requests get nothing, and without a request nothing is delivered.
pub open spec fn success_answer<T, G: FnOnce() -> T>(g: G, demand: Seq<usize>, sigs: Seq<Signal<T, ()>>) -> bool {
    if demand.len() > 0 {
        exists|v: T| #[trigger] g.ensures((), v) && sigs == seq![Signal::<T, ()>::Next(v), Signal::Complete]
    } else {
        sigs.len() == 0
    }
}

/// The signals that `success(g)` delivers: the subscription, then its answer.
pub open spec fn success_emits<T, G: FnOnce() -> T>(g: G, demand: Seq<usize>, sigs: Seq<Signal<T, ()>>) -> bool {
    &&& sigs.len() >= 1
    &&& sigs[0] == Signal::<T, ()>::Subscribe
    &&& success_answer(g, demand, sigs.skip(1))
}

/// A publisher whose value a function computes when it is first asked for;
/// it never fails.
#[verifier::reject_recursive_types(T)]
pub struct MonoCreateSuccess<T, G> where G: FnOnce() -> T {
    g: G,
    _t: Ghost<T>,
}

impl<T, G> MonoCreateSuccess<T, G> where G: FnOnce() -> T {
    /// The function that computes the value.
    pub closed spec fn generator(&self) -> G {
        self.g
    }

    pub(crate) fn new(gen: G) -> (r: MonoCreateSuccess<T, G>)
        ensures
            r.generator() == gen,
    {
        MonoCreateSuccess { g: gen, _t: Ghost(arbitrary()) }
    }
}

impl<T, G> Mono<T, ()> for MonoCreateSuccess<T, G> where G: FnOnce() -> T {

}

impl<T, G> Publisher for MonoCreateSuccess<T, G> where G: FnOnce() -> T {
    type Item = T;

    type Error = ();

    open spec fn wf(&self) -> bool {
        self.generator().requires(())
    }

    open spec fn accepts(&self, demand: Seq<usize>) -> bool {
        true
    }

    open spec fn emits(&self, demand: Seq<usize>, signals: Seq<Signal<T, ()>>) -> bool {
        success_emits(self.generator(), demand, signals)
    }

    open spec fn inline(&self) -> bool {
        true
    }

    fn subscribe<S>(self, subscriber: S) -> (r: Option<S>) where
        S: Subscriber<Item = T, Error = ()> + Send + 'static,
     {
        let mut s = subscriber;
        let mut sub = CreateSuccessSubscription::new();
        s.on_subscribe(&mut sub);
        let ghost subscribed = s.received();
        let _unused = sub.deliver(self.g, &mut s);
        proof {
            assert(sub.requested() =~= subscriber.demand());
            let sigs = delivered(subscriber.received(), s.received());
            let b = subscriber.received();
            assert(s.received()[b.len() as int] == subscribed[b.len() as int]);
            assert(sigs.skip(1) =~= delivered(subscribed, s.received()));
            assert(sigs =~= seq![Signal::<T, ()>::Subscribe] + sigs.skip(1));
            lemma_subscribed_first(sigs.skip(1));
        }
        Some(s)
    }
}

/// Records the subscriber's requests; the function then runs once, for the
/// first of them.
struct CreateSuccessSubscription {
    requests: Vec<usize>,
}

impl CreateSuccessSubscription {
    fn new() -> (r: CreateSuccessSubscription)
        ensures
            r.requested() == Seq::<usize>::empty(),
    {
        CreateSuccessSubscription { requests: Vec::new() }
    }

    /// Answers the first recorded request, whatever amount it asks for, with
    /// one run of the function; later requests get nothing. Without a
    /// request the function does not run, and is handed back.
    fn deliver<T, G: FnOnce() -> T, S: Subscriber<Item = T, Error = ()>>(&self, g: G, subscriber: &mut S) -> (unused: Option<G>)
        requires
            g.requires(()),
            old(subscriber).inv(),
        ensures
            final(subscriber).inv(),
            final(subscriber).demand() == old(subscriber).demand(),
            final(subscriber).frame() == old(subscriber).frame(),
            old(subscriber).received().is_prefix_of(final(subscriber).received()),
            success_answer(g, self.requested(), delivered(old(subscriber).received(), final(subscriber).received())),
            no_subscribe(delivered(old(subscriber).received(), final(subscriber).received())),
            unused is Some <==> self.requested().len() == 0,
            unused matches Some(h) ==> h == g,
    {
        let ghost base = subscriber.received();
        if self.requests.len() > 0 {
            let v = g();
            let ghost value = v;
            subscriber.on_next(v);
            subscriber.on_complete();
            assert(delivered(base, subscriber.received()) =~= seq![Signal::<T, ()>::Next(value), Signal::Complete]);
            None
        } else {
            assert(delivered(base, subscriber.received()) =~= Seq::<Signal<T, ()>>::empty());
            Some(g)
        }
    }
}

impl Subscription for CreateSuccessSubscription {
    closed spec fn requested(&self) -> Seq<usize> {
        self.requests@
    }

    closed spec fn cancellable(&self) -> bool {
        false
    }

    closed spec fn cancelled(&self) -> bool {
        false
    }

    fn request(&mut self, n: usize) {
        self.requests.push(n);
    }

    fn cancel(&mut self) {
    }
}

} // verus!
