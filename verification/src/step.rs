//! What an operation asks for next.

use vstd::prelude::*;

verus! {

/// What to do next: act and report what came of it, or stop with a result.
#[derive(PartialEq, Eq, Debug)]
pub enum Next<A, R> {
    Act(A),
    Done(R),
}

} // verus!
