use crate::spi::{Signal, Subscriber, Subscription, REQUEST_MAX};
use vstd::prelude::*;

verus! {

/// What `block` returns for the first signal after the subscription: the
/// value, `None` for completion without a value, or the error; nothing when
/// no such signal came.
pub open spec fn block_outcome<T, E>(sigs: Seq<Signal<T, E>>) -> Option<Result<Option<T>, E>>
    decreases sigs.len(),
{
    if sigs.len() == 0 {
        None
    } else {
        match block_outcome(sigs.drop_last()) {
            Some(o) => Some(o),
            None => match sigs.last() {
                Signal::Subscribe => None,
                Signal::Next(t) => Some(Ok(Some(t))),
                Signal::Complete => Some(Ok(None)),
                Signal::Error(e) => Some(Err(e)),
            },
        }
    }
}

/// A subscription that ignores requests and cancellation.
pub(crate) struct EmptySubscription {
    requests: Ghost<Seq<usize>>,
    cancelled: bool,
}

impl EmptySubscription {
    pub(crate) fn new() -> (r: EmptySubscription)
        ensures
            r.requested() == Seq::<usize>::empty(),
            r.cancellable(),
    {
        EmptySubscription { requests: Ghost(Seq::empty()), cancelled: false }
    }
}

impl Subscription for EmptySubscription {
    closed spec fn requested(&self) -> Seq<usize> {
        self.requests@
    }

    closed spec fn cancellable(&self) -> bool {
        true
    }

    closed spec fn cancelled(&self) -> bool {
        self.cancelled
    }

    fn request(&mut self, n: usize) {
        self.requests = Ghost(self.requests@.push(n));
    }

    fn cancel(&mut self) {
        self.cancelled = true;
    }
}

/// Keeps the outcome of the first signal it receives.
pub(crate) struct BlockSubscriber<T, E> {
    outcome: Option<Result<Option<T>, E>>,
    log: Ghost<Seq<Signal<T, E>>>,
}

impl<T, E> BlockSubscriber<T, E> {
    pub(crate) fn new() -> (r: BlockSubscriber<T, E>)
        ensures
            r.inv(),
            r.received() == Seq::<Signal<T, E>>::empty(),
            r.demand() == seq![REQUEST_MAX],
    {
        BlockSubscriber { outcome: None, log: Ghost(Seq::empty()) }
    }

    /// The outcome of the first signal received after the subscription.
    pub(crate) fn into_outcome(self) -> (r: Result<Option<T>, E>)
        requires
            self.inv(),
            block_outcome(self.received()) is Some,
        ensures
            Some(r) == block_outcome(self.received()),
    {
        match self.outcome {
            Some(r) => r,
            None => {
                proof {
                    assert(false);
                }
                Ok(None)
            },
        }
    }

    fn keep_first(&mut self, o: Result<Option<T>, E>)
        ensures
            final(self).outcome == (if old(self).outcome is Some {
                old(self).outcome
            } else {
                Some(o)
            }),
            final(self).log == old(self).log,
    {
        if self.outcome.is_none() {
            self.outcome = Some(o);
        }
    }
}

impl<T, E> Subscriber for BlockSubscriber<T, E> {
    type Item = T;

    type Error = E;

    closed spec fn received(&self) -> Seq<Signal<T, E>> {
        self.log@
    }

    closed spec fn inv(&self) -> bool {
        self.outcome == block_outcome(self.log@)
    }

    open spec fn demand(&self) -> Seq<usize> {
        seq![REQUEST_MAX]
    }

    closed spec fn frame(&self) -> Self {
        BlockSubscriber { outcome: None, log: Ghost(Seq::empty()) }
    }

    /// Requests everything, once, and never cancels.
    fn on_subscribe<P: Subscription>(&mut self, subscription: &mut P)
        ensures
            final(subscription).cancelled() == old(subscription).cancelled(),
    {
        subscription.request(REQUEST_MAX);
        assert(subscription.requested() =~= old(subscription).requested() + seq![REQUEST_MAX]);
        self.log = Ghost(self.log@.push(Signal::Subscribe));
        assert(self.log@.drop_last() =~= old(self).log@);
    }

    fn on_complete(&mut self) {
        self.keep_first(Ok(None));
        self.log = Ghost(self.log@.push(Signal::Complete));
        assert(self.log@.drop_last() =~= old(self).log@);
    }

    fn on_next(&mut self, t: T) {
        let ghost item = t;
        self.keep_first(Ok(Some(t)));
        self.log = Ghost(self.log@.push(Signal::Next(item)));
        assert(self.log@.drop_last() =~= old(self).log@);
    }

    fn on_error(&mut self, e: E) {
        let ghost err = e;
        self.keep_first(Err(e));
        self.log = Ghost(self.log@.push(Signal::Error(err)));
        assert(self.log@.drop_last() =~= old(self).log@);
    }
}

} // verus!
