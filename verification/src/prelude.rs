//! The names most programs need.
pub use crate::mono::Mono;
pub use crate::schedulers::Scheduler;
pub use crate::spi::{
    NextSubscriber, NoopSubscriber, Publisher, Signal, Subscriber, Subscribers, Subscription,
    REQUEST_MAX,
};
