//! What can go wrong.

use vstd::prelude::*;

verus! {

/// An error of the pool.
#[derive(Clone, Copy, PartialEq, Eq, Structural, Debug)]
pub enum Error {
    /// There is a global pool already.
    GlobalThreadpoolExists,
}

impl Error {
    /// The error in words.
    pub fn message(&self) -> (text: String)
        ensures
            text@ == "A global threadpool has already been initialised"@,
    {
        match self {
            Error::GlobalThreadpoolExists => "A global threadpool has already been initialised".to_owned(),
        }
    }
}

} // verus!
