use vstd::prelude::*;

verus! {

#[derive(Debug)]
pub struct RunScriptInPlayModeArgs {
    /// The code to run.
    pub code: String,
    /// Seconds before the run is stopped; the instance's default when absent.
    pub timeout: Option<u32>,
    /// `start_play` or `run_server`.
    pub mode: String,
}

} // verus!
