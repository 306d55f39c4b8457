//! The reactive-streams protocol: publishers, subscribers and subscriptions,
//! and the signals that flow between them.
use vstd::prelude::*;

verus! {

/// The demand that the library's own subscribers make when they subscribe.
pub const REQUEST_MAX: usize = 0x7fff_ffff;

/// One signal delivered to a subscriber: being handed a subscription, a
/// value, completion, or an error.
#[derive(Debug, PartialEq, Eq)]
pub enum Signal<T, E> {
    Subscribe,
    Next(T),
    Complete,
    Error(E),
}

/// The signals delivered between `before` and `after`, where `before` is a prefix of `after`.
pub open spec fn delivered<A>(before: Seq<A>, after: Seq<A>) -> Seq<A> {
    after.skip(before.len() as int)
}

/// The values among `sigs`, in order.
pub open spec fn values<T, E>(sigs: Seq<Signal<T, E>>) -> Seq<T>
    decreases sigs.len(),
{
    if sigs.len() == 0 {
        Seq::empty()
    } else {
        let before = values(sigs.drop_last());
        match sigs.last() {
            Signal::Next(t) => before.push(t),
            _ => before,
        }
    }
}

/// The errors among `sigs`, in order.
pub open spec fn errors<T, E>(sigs: Seq<Signal<T, E>>) -> Seq<E>
    decreases sigs.len(),
{
    if sigs.len() == 0 {
        Seq::empty()
    } else {
        let before = errors(sigs.drop_last());
        match sigs.last() {
            Signal::Error(e) => before.push(e),
            _ => before,
        }
    }
}

/// How many completions are among `sigs`.
pub open spec fn completions<T, E>(sigs: Seq<Signal<T, E>>) -> nat
    decreases sigs.len(),
{
    if sigs.len() == 0 {
        0
    } else {
        completions(sigs.drop_last()) + if sigs.last() is Complete {
            1nat
        } else {
            0nat
        }
    }
}

/// One step of an operator that observes the signals passing through it:
/// its function ran on account of a signal, or a signal was passed on.
pub enum Step<T, E> {
    Ran(Signal<T, E>),
    Passed(Signal<T, E>),
}

/// The steps of an operator that, for each signal in `sigs` in turn, first
/// runs its function when `picks` holds of the signals before it and the
/// signal, then passes the signal on.
pub open spec fn steps_before<T, E>(
    sigs: Seq<Signal<T, E>>,
    picks: spec_fn(Seq<Signal<T, E>>, Signal<T, E>) -> bool,
) -> Seq<Step<T, E>>
    decreases sigs.len(),
{
    if sigs.len() == 0 {
        Seq::empty()
    } else {
        let prev = steps_before(sigs.drop_last(), picks);
        if picks(sigs.drop_last(), sigs.last()) {
            prev.push(Step::Ran(sigs.last())).push(Step::Passed(sigs.last()))
        } else {
            prev.push(Step::Passed(sigs.last()))
        }
    }
}

/// The steps of an operator that, for each signal in `sigs` in turn, passes
/// the signal on, then runs its function when `picks` holds of the signals
/// before it and the signal.
pub open spec fn steps_after<T, E>(
    sigs: Seq<Signal<T, E>>,
    picks: spec_fn(Seq<Signal<T, E>>, Signal<T, E>) -> bool,
) -> Seq<Step<T, E>>
    decreases sigs.len(),
{
    if sigs.len() == 0 {
        Seq::empty()
    } else {
        let prev = steps_after(sigs.drop_last(), picks);
        if picks(sigs.drop_last(), sigs.last()) {
            prev.push(Step::Passed(sigs.last())).push(Step::Ran(sigs.last()))
        } else {
            prev.push(Step::Passed(sigs.last()))
        }
    }
}

/// How many times the function ran among `steps`.
pub open spec fn runs<T, E>(steps: Seq<Step<T, E>>) -> nat
    decreases steps.len(),
{
    if steps.len() == 0 {
        0
    } else {
        runs(steps.drop_last()) + if steps.last() is Ran {
            1nat
        } else {
            0nat
        }
    }
}

/// A subscriber was handed a subscription first, and only then: the
/// signals start with the one `Subscribe` signal among them.
pub open spec fn subscribed_first<T, E>(sigs: Seq<Signal<T, E>>) -> bool {
    &&& sigs.len() > 0
    &&& sigs[0] is Subscribe
    &&& forall|i: int| 1 <= i < sigs.len() ==> !(#[trigger] sigs[i] is Subscribe)
}

/// No `Subscribe` signal is among `sigs`.
pub open spec fn no_subscribe<T, E>(sigs: Seq<Signal<T, E>>) -> bool {
    forall|i: int| 0 <= i < sigs.len() ==> !(#[trigger] sigs[i] is Subscribe)
}

/// Appending a signal other than `Subscribe` keeps `Subscribe` out.
pub proof fn lemma_push_no_subscribe<T, E>(sigs: Seq<Signal<T, E>>, x: Signal<T, E>)
    requires
        no_subscribe(sigs),
        !(x is Subscribe),
    ensures
        no_subscribe(sigs.push(x)),
{
    assert forall|i: int| 0 <= i < sigs.len() + 1 implies !(#[trigger] sigs.push(x)[i] is Subscribe) by {
        if i < sigs.len() {
            assert(sigs.push(x)[i] == sigs[i]);
        }
    }
}

/// Joining two sequences without `Subscribe` gives one without it.
pub proof fn lemma_concat_no_subscribe<T, E>(a: Seq<Signal<T, E>>, b: Seq<Signal<T, E>>)
    requires
        no_subscribe(a),
        no_subscribe(b),
    ensures
        no_subscribe(a + b),
{
    assert forall|i: int| 0 <= i < a.len() + b.len() implies !(#[trigger] (a + b)[i] is Subscribe) by {
        if i < a.len() {
            assert((a + b)[i] == a[i]);
        } else {
            assert((a + b)[i] == b[i - a.len()]);
        }
    }
}

/// A single outcome's signals hold no `Subscribe`.
pub proof fn lemma_result_no_subscribe<T, E>(r: Result<T, E>)
    ensures
        no_subscribe(result_signals(r)),
{
}

/// A `Subscribe` signal followed by signals among which there is none is
/// subscribed first.
pub proof fn lemma_subscribed_first<T, E>(rest: Seq<Signal<T, E>>)
    requires
        no_subscribe(rest),
    ensures
        subscribed_first(seq![Signal::<T, E>::Subscribe] + rest),
{
    let s = seq![Signal::<T, E>::Subscribe] + rest;
    assert forall|i: int| 1 <= i < s.len() implies !(#[trigger] s[i] is Subscribe) by {
        assert(s[i] == rest[i - 1]);
    }
}

/// The signals that a publisher built from a single outcome delivers: a value
/// followed by completion, or an error.
pub open spec fn result_signals<T, E>(r: Result<T, E>) -> Seq<Signal<T, E>> {
    match r {
        Ok(v) => seq![Signal::Next(v), Signal::Complete],
        Err(e) => seq![Signal::Error(e)],
    }
}

/// A source of signals. Subscribing hands the subscriber over; the publisher
/// delivers its signals to it and hands it back.
pub trait Publisher: Sized {
    type Item;

    type Error;

    /// The publisher can be subscribed: the functions it holds accept every argument.
    spec fn wf(&self) -> bool;

    /// A subscriber that requests `demand` when it subscribes is served without failure.
    spec fn accepts(&self, demand: Seq<usize>) -> bool;

    /// `signals` is a sequence that a subscriber requesting `demand` may
    /// receive, from its subscription on.
    spec fn emits(&self, demand: Seq<usize>, signals: Seq<Signal<Self::Item, Self::Error>>) -> bool;

    /// Subscribing is over when `subscribe` returns: no scheduler on the way
    /// hands the subscription to another thread.
    spec fn inline(&self) -> bool;

    /// Subscribes `subscriber`. When the subscription is inline, the
    /// subscriber is handed back having received what the publisher
    /// delivers. Otherwise a scheduler on the way has handed it, with the
    /// same requirements, to a `subscribe` that runs on another thread, whose
    /// contract says what it receives there, and nothing is handed back.
    fn subscribe<S>(self, subscriber: S) -> (r: Option<S>) where
        S: Subscriber<Item = Self::Item, Error = Self::Error> + Send + 'static,
        requires
            self.wf(),
            self.accepts(subscriber.demand()),
            subscriber.inv(),
        ensures
            r is Some <==> self.inline(),
            r matches Some(s) ==> {
                &&& s.inv()
                &&& s.frame() == subscriber.frame()
                &&& subscriber.received().is_prefix_of(s.received())
                &&& subscribed_first(delivered(subscriber.received(), s.received()))
                &&& self.emits(subscriber.demand(), delivered(subscriber.received(), s.received()))
            },
    ;
}

/// The link that a publisher hands to its subscriber, through which the
/// subscriber asks for items. The requests a subscriber makes while it is
/// being subscribed are answered, in order, once it has returned.
pub trait Subscription: Sized {
    // The defaults below let a subscription written outside of verified code
    // compile; a verified one defines all three.

    /// The amounts requested so far, in order.
    open spec fn requested(&self) -> Seq<usize> {
        Seq::empty()
    }

    /// Cancelling is supported.
    open spec fn cancellable(&self) -> bool {
        false
    }

    /// The subscription has been cancelled.
    open spec fn cancelled(&self) -> bool {
        false
    }

    fn request(&mut self, n: usize)
        ensures
            final(self).requested() == old(self).requested().push(n),
            final(self).cancellable() == old(self).cancellable(),
            final(self).cancelled() == old(self).cancelled(),
    ;

    fn cancel(&mut self)
        requires
            old(self).cancellable(),
        ensures
            final(self).requested() == old(self).requested(),
            final(self).cancellable() == old(self).cancellable(),
            final(self).cancelled(),
    ;
}

/// The receiving end of a publisher.
pub trait Subscriber: Sized {
    type Item;

    type Error;

    // The four specification functions below have default definitions only
    // so that a subscriber written outside of verified code compiles; a
    // verified subscriber defines all four, since its operations cannot meet
    // their contracts otherwise.

    /// The signals received so far.
    open spec fn received(&self) -> Seq<Signal<Self::Item, Self::Error>> {
        Seq::empty()
    }

    /// The subscriber's own invariant.
    open spec fn inv(&self) -> bool {
        true
    }

    /// What the subscriber requests when it is handed a subscription.
    open spec fn demand(&self) -> Seq<usize> {
        Seq::empty()
    }

    /// The subscriber with everything it has received forgotten: what it was
    /// made with. Receiving signals leaves it unchanged.
    open spec fn frame(&self) -> Self {
        *self
    }

    fn on_subscribe<P: Subscription>(&mut self, subscription: &mut P)
        requires
            old(self).inv(),
        ensures
            final(self).inv(),
            final(self).received() == old(self).received().push(Signal::Subscribe),
            final(self).demand() == old(self).demand(),
            final(self).frame() == old(self).frame(),
            final(subscription).requested() == old(subscription).requested() + old(self).demand(),
            final(subscription).cancellable() == old(subscription).cancellable(),
    ;

    fn on_complete(&mut self)
        requires
            old(self).inv(),
        ensures
            final(self).inv(),
            final(self).received() == old(self).received().push(Signal::Complete),
            final(self).demand() == old(self).demand(),
            final(self).frame() == old(self).frame(),
    ;

    fn on_next(&mut self, t: Self::Item)
        requires
            old(self).inv(),
        ensures
            final(self).inv(),
            final(self).received() == old(self).received().push(Signal::Next(t)),
            final(self).demand() == old(self).demand(),
            final(self).frame() == old(self).frame(),
    ;

    fn on_error(&mut self, e: Self::Error)
        requires
            old(self).inv(),
        ensures
            final(self).inv(),
            final(self).received() == old(self).received().push(Signal::Error(e)),
            final(self).demand() == old(self).demand(),
            final(self).frame() == old(self).frame(),
    ;
}

/// Ready-made subscribers.
pub struct Subscribers;

impl Subscribers {
    /// A subscriber that requests everything and hands each item to `action`.
    pub fn next<T, E, F>(action: F) -> (r: NextSubscriber<T, E, F>) where F: Fn(T),
        requires
            forall|t: T| action.requires((t,)),
        ensures
            r.inv(),
            r.received() == Seq::<Signal<T, E>>::empty(),
            r.demand() == seq![REQUEST_MAX],
            r.action() == action,
    {
        NextSubscriber::new(action)
    }

    /// A subscriber that requests everything and ignores what it receives.
    pub fn noop<T, E>() -> (r: NoopSubscriber<T, E>)
        ensures
            r.inv(),
            r.received() == Seq::<Signal<T, E>>::empty(),
            r.demand() == seq![REQUEST_MAX],
    {
        NoopSubscriber::new()
    }
}

/// Hands every item to a function. An item is moved into the call, so the
/// function runs once for each item, and on nothing else.
pub struct NextSubscriber<T, E, F> where F: Fn(T) {
    f: F,
    log: Ghost<Seq<Signal<T, E>>>,
}

impl<T, E, F> NextSubscriber<T, E, F> where F: Fn(T) {
    /// The function that receives the items.
    pub closed spec fn action(&self) -> F {
        self.f
    }

    /// Law: the function has been applied to every value received.
    pub proof fn lemma_action_applied_to_each_value(&self)
        requires
            self.inv(),
        ensures
            forall|i: int|
                0 <= i < self.received().len() ==> (#[trigger] self.received()[i] matches Signal::Next(
                    v,
                ) ==> self.action().ensures((v,), ())),
    {
    }

    pub(crate) fn new(f: F) -> (r: NextSubscriber<T, E, F>)
        requires
            forall|t: T| f.requires((t,)),
        ensures
            r.inv(),
            r.received() == Seq::<Signal<T, E>>::empty(),
            r.action() == f,
    {
        NextSubscriber { f, log: Ghost(Seq::empty()) }
    }
}

impl<T, E, F> Subscriber for NextSubscriber<T, E, F> where F: Fn(T) {
    type Item = T;

    type Error = E;

    closed spec fn received(&self) -> Seq<Signal<T, E>> {
        self.log@
    }

    closed spec fn inv(&self) -> bool {
        &&& forall|t: T| self.f.requires((t,))
        &&& forall|i: int|
            0 <= i < self.log@.len() ==> (#[trigger] self.log@[i] matches Signal::Next(v)
                ==> self.f.ensures((v,), ()))
    }

    open spec fn demand(&self) -> Seq<usize> {
        seq![REQUEST_MAX]
    }

    closed spec fn frame(&self) -> Self {
        NextSubscriber { f: self.f, log: Ghost(Seq::empty()) }
    }

    /// Requests everything, once, and never cancels.
    fn on_subscribe<P: Subscription>(&mut self, subscription: &mut P)
        ensures
            final(subscription).cancelled() == old(subscription).cancelled(),
    {
        subscription.request(REQUEST_MAX);
        assert(subscription.requested() =~= old(subscription).requested() + seq![REQUEST_MAX]);
        self.log = Ghost(self.log@.push(Signal::Subscribe));
    }

    fn on_complete(&mut self) {
        self.log = Ghost(self.log@.push(Signal::Complete));
    }

    /// Hands the value to the function.
    fn on_next(&mut self, t: T)
        ensures
            old(self).action().ensures((t,), ()),
    {
        let ghost item = t;
        (self.f)(t);
        self.log = Ghost(self.log@.push(Signal::Next(item)));
    }

    fn on_error(&mut self, e: E) {
        self.log = Ghost(self.log@.push(Signal::Error(e)));
    }
}

/// Requests everything and ignores it.
pub struct NoopSubscriber<T, E> {
    log: Ghost<Seq<Signal<T, E>>>,
}

impl<T, E> NoopSubscriber<T, E> {
    pub(crate) fn new() -> (r: NoopSubscriber<T, E>)
        ensures
            r.inv(),
            r.received() == Seq::<Signal<T, E>>::empty(),
    {
        NoopSubscriber { log: Ghost(Seq::empty()) }
    }
}

impl<T, E> Subscriber for NoopSubscriber<T, E> {
    type Item = T;

    type Error = E;

    closed spec fn received(&self) -> Seq<Signal<T, E>> {
        self.log@
    }

    open spec fn inv(&self) -> bool {
        true
    }

    open spec fn demand(&self) -> Seq<usize> {
        seq![REQUEST_MAX]
    }

    closed spec fn frame(&self) -> Self {
        NoopSubscriber { log: Ghost(Seq::empty()) }
    }

    /// Requests everything, once, and never cancels.
    fn on_subscribe<P: Subscription>(&mut self, subscription: &mut P)
        ensures
            final(subscription).cancelled() == old(subscription).cancelled(),
    {
        subscription.request(REQUEST_MAX);
        assert(subscription.requested() =~= old(subscription).requested() + seq![REQUEST_MAX]);
        self.log = Ghost(self.log@.push(Signal::Subscribe));
    }

    fn on_complete(&mut self) {
        self.log = Ghost(self.log@.push(Signal::Complete));
    }

    fn on_next(&mut self, t: T) {
        self.log = Ghost(self.log@.push(Signal::Next(t)));
    }

    fn on_error(&mut self, e: E) {
        self.log = Ghost(self.log@.push(Signal::Error(e)));
    }
}

} // verus!
