//! The program arguments the host hands to the library: the files to
//! open. Reading the process environment is the host's.

use vstd::prelude::*;

verus! {

/// The file names named on the command line.
pub struct Args {
    pub filenames: Vec<String>,
}

impl Args {
    /// Arguments carrying the given file names.
    pub fn new(filenames: Vec<String>) -> (r: Args)
        ensures
            r.filenames@ == filenames@,
    {
        Args { filenames }
    }
}

impl Default for Args {
    /// No files named.
    fn default() -> (r: Args)
        ensures
            r.filenames@ == Seq::<String>::empty(),
    {
        Args { filenames: Vec::new() }
    }
}

} // verus!
