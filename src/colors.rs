//! Default color names of the prompt and the mask.

use vstd::prelude::*;

verus! {

pub const DEFAULT_MASK_COLOR: &'static str = "green";

pub const DEFAULT_PROMPT_COLOR: &'static str = "yellow";

} // verus!
