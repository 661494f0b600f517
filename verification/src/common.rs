use vstd::prelude::*;

verus! {

/// A source-line number as the scanner counts them, starting at 1.
pub type Line = usize;

} // verus!
