//! The artifact-emission stage of a compiler driver.
//!
//! Given a compiled module and the set of output kinds that were asked for,
//! the library decides which artifacts are written, where in the output
//! directory each of them goes, and when an existing destination must be left
//! alone.  It never touches the file system itself: it judges what the
//! caller observed of the destination, hands out one step at a time, and is
//! told how each step went.
//!
//! - [`target`]: the output kinds, and the set of kinds that a run is asked
//!   for.
//! - [`model`]: the compiled module and its contracts.
//! - [`guard`]: whether a destination may be written into.
//! - [`layout`]: the steps of a run, in order.
//! - [`emitter`]: a run in progress, from the first step to its outcome.
//! - [`tree`]: what a run leaves in the output directory.
//! - [`pretty`]: the layout of the intermediate representation.
//! - [`error`]: the failures, and what the user is told.

pub mod emitter;
pub mod error;
pub mod guard;
pub mod layout;
pub mod model;
pub mod pretty;
pub mod target;
pub mod tree;
