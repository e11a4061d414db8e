//! Synthetic fibers: lightweight coroutines for cooperative multitasking.
//!
//! A fiber is a computation that runs one bounded unit of work at a time.
//! Each step either suspends with a value or finishes with a final output,
//! and the driver decides when the next step happens.
//!
//! - [`state`]: the outcome of one step.
//! - [`cofn`]: cofunctions, which lend a value to a caller's operation.
//! - [`fiber`]: the fiber protocol, runs of a fiber, and driving one to its
//!   end.
//! - [`iter`], [`iterators`]: iterators as fibers, and fibers as sequences.
//! - [`cont`]: fibers made of continuations.
pub mod cofn;
pub mod cont;
pub mod fiber;
pub mod iter;
pub mod iterators;
pub mod state;

pub use cofn::{CoFn, CoFnMut, CoFnOnce, Eval};
pub use cont::{continue_with, Chain, Continuation, Engine};
pub use fiber::{Fiber, FiberExt};
pub use iter::IterFbr;
pub use iterators::{FiberIter, FiberIterLazy, FiberIterator, IntoIter};
pub use state::State;
