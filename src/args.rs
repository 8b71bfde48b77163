//! What the command line asks the program to do.
use vstd::prelude::*;

verus! {

/// The program's mode, with the settings it runs with.
#[derive(Debug, PartialEq, Eq)]
pub enum ProgArgs {
    /// Act as a reverse proxy in front of a backend.
    Deploy {
        listening_address: String,
        listening_port: u16,
        backend_address: String,
        backend_port: u16,
    },
    /// Train a filter on access logs.
    Train,
    /// No mode was chosen.
    NoMode,
}

} // verus!
