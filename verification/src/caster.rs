use vstd::prelude::*;

verus! {

/// Which kind of grid line a ray crossed when it hit a wall: a vertical line
/// (constant x) or a horizontal one (constant y).
#[derive(Clone, Copy, PartialEq, Eq, Structural, Debug)]
pub enum Side {
    Vertical,
    Horizontal,
}

} // verus!
