//! Command-line arguments, as plain values. The surrounding program parses
//! the real command line and hands the result over in this form; the path is
//! opaque to the validation core.
use vstd::prelude::*;

verus! {

/// The arguments a run needs: the path to the FASTQ file, possibly
/// gzip-compressed.
pub struct Args {
    pub input: String,
}

impl Args {
    pub fn new(input: String) -> (r: Args)
        ensures
            r.input@ == input@,
    {
        Args { input }
    }
}

} // verus!
