use vstd::prelude::*;

verus! {

/// Why a load stopped.
#[derive(Debug, PartialEq, Eq)]
pub enum LoadError {
    /// The input file could not be opened or read.
    FileAccess(String),
    /// A line does not hold its delimiter exactly once.
    MalformedRecord,
    /// A value is not a JSON array of numbers.
    ValueDecode,
    /// The store could not be reached.
    StoreConnection(String),
    /// The store refused a write.
    StoreWrite(String),
    /// The command has no behaviour yet.
    NotImplemented,
}

} // verus!
