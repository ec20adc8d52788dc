use vstd::prelude::*;

verus! {

#[derive(Clone, Debug)]
pub struct Args {
    /// The identity from a listing; `None` clears the binding.
    pub studio_id: Option<String>,
}

} // verus!
