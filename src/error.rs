use vstd::prelude::*;

verus! {

/// The failures of repository operations.
#[derive(Debug)]
pub enum Error {
    /// A store could not carry out an operation (an I/O failure).
    Storage(String),
    /// A stored record is not valid UTF-8 or does not parse as a path.
    Decode,
}

} // verus!
