//! Publishers of at most one value, and the operators on them.
use vstd::prelude::*;

mod creation;
mod creation_success;
mod do_finally;
mod do_on_complete;
mod do_on_error;
mod emitter;
mod error;
mod filter;
mod flatmap;
mod foreach;
mod just;
mod lazy;
mod misc;
mod processor;
mod schedule_on;
mod spi;
mod transform;
mod transform_error;

pub use creation::{create_answer, create_emits, MonoCreate};
pub use creation_success::{success_answer, success_emits, MonoCreateSuccess};
pub use do_finally::{lemma_first_end_runs, on_first_end, terminated, DoFinallySubscriber, MonoDoFinally};
pub use do_on_complete::{
    lemma_first_completion_runs, on_first_completion, CompleteSubscriber, MonoDoOnComplete,
};
pub use do_on_error::{lemma_first_error_runs, on_first_error, DoOnError, DoOnErrorSubscriber};
pub use emitter::Emitter;
pub use error::MonoError;
pub use filter::{filtered, MonoFilter};
pub use flatmap::{
    flat_run, inner_run, inner_sources, lemma_flat_run_no_subscribe, lemma_inner_run_no_subscribe,
    lemma_inner_sources_push,
    MonoFlatMap,
};
pub use foreach::{lemma_first_value_runs, on_first_value, Foreach, ForeachSubscriber};
pub use just::{asks, just_answer, just_emits, MonoJust};
pub use lazy::{always_emits, lazy_yields, MonoLazy};
pub use misc::block_outcome;
pub use processor::{Attached, Processor};
pub use schedule_on::MonoScheduleOn;
pub use spi::Mono;
pub use transform::{mapped, signal_mapped, MonoTransform, TransformSubscriber};
pub use transform_error::{
    error_mapped, signal_error_mapped, InnerSubscriber as TransformErrorSubscriber, MonoTransformError,
};

verus! {

/// A publisher that delivers `t`, then completes, for the first request of
/// at least one item.
pub fn just<T, E>(t: T) -> (r: MonoJust<T, E>) where T: Clone,
    ensures
        r.value() == t,
{
    MonoJust::new(t)
}

/// A publisher whose outcome `f` emits through the emitter it is handed and
/// hands back. The subscription consumes `f`, so it runs at most once: when
/// the subscriber first asks for something.
pub fn lazy<T, E, F>(f: F) -> (r: MonoLazy<T, E, F>) where F: FnOnce(Emitter<T, E>) -> Emitter<T, E>,
    ensures
        r.producer() == f,
{
    MonoLazy::new(f)
}

/// A publisher whose outcome `gen` computes. The subscription consumes
/// `gen`, so it runs at most once: for the first request.
pub fn create<T, G, E>(gen: G) -> (r: MonoCreate<T, G, E>) where G: FnOnce() -> Result<T, E>,
    ensures
        r.generator() == gen,
{
    MonoCreate::new(gen)
}

/// A publisher whose value `gen` computes. The subscription consumes `gen`,
/// so it runs at most once: for the first request.
pub fn success<T, G>(gen: G) -> (r: MonoCreateSuccess<T, G>) where G: FnOnce() -> T,
    ensures
        r.generator() == gen,
{
    MonoCreateSuccess::new(gen)
}

/// A publisher that fails with `e`.
pub fn error<T, E>(e: E) -> (r: MonoError<T, E>)
    ensures
        r.error() == e,
{
    MonoError::new(e)
}

} // verus!
