//! The results writer's settings.  Serialising and writing result files
//! is the caller's I/O; the library holds the destination and the
//! derived per-run summary numbers (see [`crate::experiment`]).

use vstd::prelude::*;

verus! {

/// Where experiment results are written.
pub struct ResultsWriter {
    pub output_dir: String,
}

impl ResultsWriter {
    /// A writer aimed at `output_dir`.
    pub fn new(output_dir: String) -> (w: ResultsWriter)
        ensures
            w.output_dir@ == output_dir@,
    {
        ResultsWriter { output_dir }
    }

    /// The destination directory.
    pub fn output_dir(&self) -> (d: &String)
        ensures
            d@ == self.output_dir@,
    {
        &self.output_dir
    }
}

} // verus!
