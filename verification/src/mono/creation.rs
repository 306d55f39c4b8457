use super::spi::Mono;
use crate::spi::{
    delivered, lemma_subscribed_first, no_subscribe, result_signals, Publisher, Signal, Subscriber,
    Subscription,
};
use vstd::prelude::*;

verus! {

/// What `create(g)` delivers after the subscription to a subscriber whose
/// requests are `demand`: the first request, whatever amount it asks for,
/// runs `g` once, and its result is delivered as a value and completion or
/// as an error; later requests get nothing, and without a request nothing
/// is delivered.
pub open spec fn create_answer<T, E, G: FnOnce() -> Result<T, E>>(
    g: G,
    demand: Seq<usize>,
    sigs: Seq<Signal<T, E>>,
) -> bool {
    if demand.len() > 0 {
        exists|r: Result<T, E>| #[trigger] g.ensures((), r) && sigs == result_signals(r)
    } else {
        sigs.len() == 0
    }
}

/// The signals that `create(g)` delivers: the subscription, then its answer.
pub open spec fn create_emits<T, E, G: FnOnce() -> Result<T, E>>(
    g: G,
    demand: Seq<usize>,
    sigs: Seq<Signal<T, E>>,
) -> bool {
    &&& sigs.len() >= 1
    &&& sigs[0] == Signal::<T, E>::Subscribe
    &&& create_answer(g, demand, sigs.skip(1))
}

/// A publisher whose outcome a function computes when it is first asked for.
#[verifier::reject_recursive_types(T)]
#[verifier::reject_recursive_types(E)]
pub struct MonoCreate<T, G, E> where G: FnOnce() -> Result<T, E> {
    g: G,
    _t: Ghost<(T, E)>,
}

impl<T, G, E> MonoCreate<T, G, E> where G: FnOnce() -> Result<T, E> {
    /// The function that computes the outcome.
    pub closed spec fn generator(&self) -> G {
        self.g
    }

    pub(crate) fn new(gen: G) -> (r: MonoCreate<T, G, E>)
        ensures
            r.generator() == gen,
    {
        MonoCreate { g: gen, _t: Ghost(arbitrary()) }
    }
}

impl<T, G, E> Mono<T, E> for MonoCreate<T, G, E> where G: FnOnce() -> Result<T, E> {

}

impl<T, G, E> Publisher for MonoCreate<T, G, E> where G: FnOnce() -> Result<T, E> {
    type Item = T;

    type Error = E;

    open spec fn wf(&self) -> bool {
        self.generator().requires(())
    }

    open spec fn accepts(&self, demand: Seq<usize>) -> bool {
        true
    }

    open spec fn emits(&self, demand: Seq<usize>, signals: Seq<Signal<T, E>>) -> bool {
        create_emits(self.generator(), demand, signals)
    }

    open spec fn inline(&self) -> bool {
        true
    }

    fn subscribe<S>(self, subscriber: S) -> (r: Option<S>) where
        S: Subscriber<Item = T, Error = E> + Send + 'static,
     {
        let mut s = subscriber;
        let mut sub = CreateSubscription::new();
        s.on_subscribe(&mut sub);
        let ghost subscribed = s.received();
        let _unused = sub.deliver(self.g, &mut s);
        proof {
            assert(sub.requested() =~= subscriber.demand());
            let sigs = delivered(subscriber.received(), s.received());
            let b = subscriber.received();
            assert(s.received()[b.len() as int] == subscribed[b.len() as int]);
            assert(sigs.skip(1) =~= delivered(subscribed, s.received()));
            assert(sigs =~= seq![Signal::<T, E>::Subscribe] + sigs.skip(1));
            lemma_subscribed_first(sigs.skip(1));
        }
        Some(s)
    }
}

/// Records the subscriber's requests; the function then runs once, for the
/// first of them.
struct CreateSubscription {
    requests: Vec<usize>,
}

impl CreateSubscription {
    fn new() -> (r: CreateSubscription)
        ensures
            r.requested() == Seq::<usize>::empty(),
    {
        CreateSubscription { requests: Vec::new() }
    }

    /// Answers the first recorded request, whatever amount it asks for, with
    /// one run of the function; later requests get nothing. Without a
    /// request the function does not run, and is handed back.
    fn deliver<T, E, G: FnOnce() -> Result<T, E>, S: Subscriber<Item = T, Error = E>>(
        &self,
        g: G,
        subscriber: &mut S,
    ) -> (unused: Option<G>)
        requires
            g.requires(()),
            old(subscriber).inv(),
        ensures
            final(subscriber).inv(),
            final(subscriber).demand() == old(subscriber).demand(),
            final(subscriber).frame() == old(subscriber).frame(),
            old(subscriber).received().is_prefix_of(final(subscriber).received()),
            create_answer(g, self.requested(), delivered(old(subscriber).received(), final(subscriber).received())),
            no_subscribe(delivered(old(subscriber).received(), final(subscriber).received())),
            unused is Some <==> self.requested().len() == 0,
            unused matches Some(h) ==> h == g,
    {
        let ghost base = subscriber.received();
        if self.requests.len() > 0 {
            let r = g();
            let ghost outcome = r;
            match r {
                Ok(v) => {
                    subscriber.on_next(v);
                    subscriber.on_complete();
                },
                Err(e) => {
                    subscriber.on_error(e);
                },
            }
            assert(delivered(base, subscriber.received()) =~= result_signals(outcome));
            None
        } else {
            assert(delivered(base, subscriber.received()) =~= Seq::<Signal<T, E>>::empty());
            Some(g)
        }
    }
}

impl Subscription for CreateSubscription {
    closed spec fn requested(&self) -> Seq<usize> {
        self.requests@
    }

    closed spec fn cancellable(&self) -> bool {
        false
    }

    closed spec fn cancelled(&self) -> bool {
        false
    }

    fn request(&mut self, n: usize) {
        self.requests.push(n);
    }

    fn cancel(&mut self) {
    }
}

} // verus!
