//! The commands of the mirror.
use vstd::prelude::*;

verus! {

/// What to run.
#[derive(Debug, Clone, Copy, PartialEq, Eq, Structural)]
pub enum Cli {
    /// Create the schemas and tables and load the latest full export.
    Init,
    /// Apply replication packets until none is left; with `infinite`, keep waiting for more.
    Sync { infinite: bool },
}

} // verus!
