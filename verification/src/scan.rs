//! The whole scan, as one entry point: discovery first, then aggregation.

use vstd::prelude::*;

use crate::git::collect_outcomes;
use crate::status::ScanTotals;
use crate::status::summarize;
use crate::walk::discover_roots;

verus! {

/// Scans the directory tree below `root`: discovers every repository root
/// the pruning policy records, then asks each for its working-tree status
/// and folds the outcomes into the scan totals. Walk errors and per-path
/// report lines go to the error stream as they occur; a failing status query
/// on an opened repository ends the scan with that error's message, and
/// nothing else does.
pub fn scan(root: &String) -> Result<ScanTotals, String> {
    let roots = discover_roots(root);
    match collect_outcomes(&roots) {
        Ok(outcomes) => Ok(summarize(&outcomes)),
        Err(msg) => Err(msg),
    }
}

} // verus!
