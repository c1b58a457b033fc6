//! Diagnostic output: per-entry walk errors and per-path report lines go to
//! the error stream as they occur.

use std::io::Write;

use vstd::prelude::*;

verus! {

/// Relies on std::io::stderr and std::io::Write::write_fmt: writes one line
/// to the error stream; a line that could not be written is dropped.
#[verifier::external_body]
pub(crate) fn emit_line(line: &String) {
    let mut err = std::io::stderr();
    let _ = writeln!(err, "{}", line);
}

} // verus!
