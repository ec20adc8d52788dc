use vstd::prelude::*;

verus! {

#[derive(Clone, Debug)]
pub struct Args {
    /// `start_play`, `stop` or `run_server`.
    pub mode: String,
}

} // verus!
