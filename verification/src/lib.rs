pub mod app;
pub mod arena;
pub mod color;
pub mod element;
pub mod event;
pub mod react;
pub mod draw;
pub mod util;

use vstd::prelude::*;

verus! {

/// Adds two machine-word counts.
pub fn add(left: usize, right: usize) -> (r: usize)
    requires
        left + right <= usize::MAX,
    ensures
        r == left + right,
{
    left + right
}

} // verus!
