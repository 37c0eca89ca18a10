//! What a shell is told about one attempt to read a line.
//!
//! Reading is the host program's part: it asks its line source for a line,
//! and hands the result to the shell.

use vstd::prelude::*;

verus! {

/// The result of one attempt to read a line.
pub enum InputResult {
    /// The user interrupted the read.
    Interrupted,
    /// The input has ended.
    EOF,
    /// A line.
    S(String),
}

/// Names the line source that prints the prompt to the standard output and
/// reads a line from the standard input. The host program reads for it.
pub struct IO;

} // verus!
