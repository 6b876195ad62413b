//! A scatter-gather file-hashing library: classify directory entries,
//! hash regular files with SHA-1, and render the results, with the
//! per-job decisions and the output policy verified.

use vstd::prelude::*;
use vstd::string::StringExecFns;

pub mod hash;
pub mod job;
pub mod output;

verus! {

/// Pipeline configuration: worker-pool size and the two output switches.
pub struct Config {
    /// Number of worker threads hashing in parallel.
    pub pool_size: usize,
    /// When true, buffer all successes, sort by hash string, then print.
    pub sort_output: bool,
    /// When true, report entries that were skipped as not regular files.
    pub verbose: bool,
}

impl Default for Config {
    /// Default: eight workers, streaming (unsorted) output, quiet.
    fn default() -> (c: Config)
        ensures
            c.pool_size == 8,
            !c.sort_output,
            !c.verbose,
    {
        Config { pool_size: 8, sort_output: false, verbose: false }
    }
}

/// Decide whether a run may start at all: the traversal root must
/// exist. Exactly when it does not, the run is refused, with a message
/// naming the missing path; this is the only fatal condition — per-file
/// failures later never stop the run.
pub fn preflight(root: &str, root_exists: bool) -> (r: Result<(), String>)
    ensures
        r is Ok <==> root_exists,
        r matches Err(m) ==> m@ == ("root path does not exist: ")@ + root@,
{
    if root_exists {
        Ok(())
    } else {
        let mut m: String = ("root path does not exist: ").to_owned();
        m.append(root);
        Err(m)
    }
}

} // verus!
