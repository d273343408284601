//! Plain configuration data for a command-line driver.
//!
//! The driver itself (argument parsing, file reading, printing) lives
//! outside the library; it hands over and receives these plain values.

use vstd::prelude::*;

verus! {

/// The output language a driver may ask for.
#[derive(Clone, Copy, Debug, PartialEq, Eq, Structural)]
pub enum Target {
    Rust,
}

/// A compiler for differentiating expressions.
#[derive(Debug)]
pub struct Args {
    pub input: String,
    pub target: Target,
    pub stdout: bool,
}

} // verus!
