//! A reactive-streams library: single-value publishers (`Mono`) and the
//! operators that compose them, with the signals each one delivers proved.

pub mod laws;
pub mod mono;
pub mod prelude;
pub mod schedulers;
mod spi;
