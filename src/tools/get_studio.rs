use vstd::prelude::*;

verus! {

/// The tool takes no arguments.
#[derive(Clone, Debug, PartialEq, Eq)]
pub struct Args {}

} // verus!
