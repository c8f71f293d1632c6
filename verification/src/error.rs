//! The errors of the library.
use vstd::prelude::*;

verus! {

/// An error that the library itself decides on, with its message.
#[derive(Debug)]
pub enum Error {
    /// A source answered, but not with what a sync needs.
    Sync(String),
}

} // verus!
