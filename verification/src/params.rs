use vstd::prelude::*;

verus! {

/// How many candidates the top-k score selector keeps.
pub const TOP_K_CANDIDATES_TO_SELECT: usize = 100;

} // verus!
