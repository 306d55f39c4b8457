use vstd::prelude::*;

verus! {

/// The producing end of a single-outcome publisher: the first call to
/// `success` or `error` decides the outcome, later calls are ignored.
pub struct Emitter<T, E> {
    slot: Option<Result<T, E>>,
}

impl<T, E> Emitter<T, E> {
    /// The outcome emitted so far, if any.
    pub closed spec fn outcome(&self) -> Option<Result<T, E>> {
        self.slot
    }

    /// An emitter that has emitted nothing.
    pub closed spec fn vacant() -> Emitter<T, E> {
        Emitter { slot: None }
    }

    pub(crate) fn new() -> (r: Emitter<T, E>)
        ensures
            r == Self::vacant(),
            r.outcome() == None::<Result<T, E>>,
    {
        Emitter { slot: None }
    }

    /// Emits a value, unless an outcome was emitted already.
    pub fn success(&mut self, t: T)
        ensures
            final(self).outcome() == (if old(self).outcome() is Some {
                old(self).outcome()
            } else {
                Some(Ok(t))
            }),
    {
        if self.slot.is_none() {
            self.slot = Some(Ok(t));
        }
    }

    /// Emits an error, unless an outcome was emitted already.
    pub fn error(&mut self, e: E)
        ensures
            final(self).outcome() == (if old(self).outcome() is Some {
                old(self).outcome()
            } else {
                Some(Err(e))
            }),
    {
        if self.slot.is_none() {
            self.slot = Some(Err(e));
        }
    }

    /// Hands out the outcome and leaves the emitter empty.
    pub(crate) fn take_outcome(&mut self) -> (r: Option<Result<T, E>>)
        ensures
            r == old(self).outcome(),
            *final(self) == Self::vacant(),
    {
        self.slot.take()
    }
}

} // verus!
