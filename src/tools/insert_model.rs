use vstd::prelude::*;

verus! {

#[derive(Clone, Debug)]
pub struct Args {
    /// What to search the marketplace for.
    pub query: String,
}

} // verus!
