//! What GitHub resources have in common.

use vstd::prelude::*;

verus! {

/// Whether an issue or pull request is still open.
#[derive(Debug, Clone, Copy, PartialEq, Eq, Structural)]
pub enum State {
    Open,
    Closed,
}

/// A resource that is either open or closed.
pub trait Closeable {
    fn is_open(&self) -> bool;
}

/// A resource that knows when it was last modified.
pub trait ModDate: Ord {
    fn mod_time(&self) -> u64;
}

} // verus!
