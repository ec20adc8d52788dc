use vstd::prelude::*;

verus! {

#[derive(Clone, Debug)]
pub struct Args {
    /// The code to run.
    pub command: String,
}

} // verus!
