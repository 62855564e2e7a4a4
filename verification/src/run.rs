//! Keeping count over the files of one run.

use vstd::prelude::*;

verus! {

/// How many files a run has tried to load, and how many of them were not loaded.
#[derive(Debug, Clone, Copy, PartialEq, Eq, Structural)]
pub struct RunTally {
    pub attempted: usize,
    pub failed: usize,
}

/// The tally of a run that has tried no file yet.
pub fn no_file_yet() -> (tally: RunTally)
    ensures
        tally == (RunTally { attempted: 0, failed: 0 }),
{
    RunTally { attempted: 0, failed: 0 }
}

/// The tally after one more file. A file that was not loaded is counted and the run goes on:
/// the files after it are still tried, each on its own.
pub fn after_file(tally: RunTally, loaded: bool) -> (next: RunTally)
    requires
        tally.attempted < usize::MAX,
        tally.failed <= tally.attempted,
    ensures
        next.attempted == tally.attempted + 1,
        next.failed == tally.failed + if loaded {
            0usize
        } else {
            1usize
        },
        next.failed <= next.attempted,
{
    RunTally {
        attempted: tally.attempted + 1,
        failed: if loaded {
            tally.failed
        } else {
            tally.failed + 1
        },
    }
}

/// Whether the run as a whole went well: every file that was tried was loaded.
pub fn run_succeeded(tally: &RunTally) -> (ok: bool)
    ensures
        ok == (tally.failed == 0),
{
    tally.failed == 0
}

} // verus!
