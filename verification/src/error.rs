//! The errors that construction and registration can report.

use vstd::prelude::*;

verus! {

/// What can go wrong when the engine is set up or a subscription is made.
#[derive(Clone, Copy, Debug, PartialEq, Eq, Structural)]
pub enum Error {
    /// The engine library that was loaded speaks another client API version
    /// than the one this library was built for.
    VersionMismatch { linked: u64, loaded: u64 },
    /// The engine could not hand out a handle.
    Null,
    /// The engine answered a request with a non-zero status.
    EngineRejected(i32),
    /// A subscription named the same template twice.
    DuplicateInterest,
}

impl Error {
    /// What an engine status code means: zero is success, anything else is
    /// a rejection that carries the code.
    pub open spec fn of_status(status: i32) -> Result<(), Error> {
        if status == 0 {
            Ok(())
        } else {
            Err(Error::EngineRejected(status))
        }
    }

    /// Turns an engine status code into a result.
    pub fn from_status(status: i32) -> (r: Result<(), Error>)
        ensures
            r == Error::of_status(status),
    {
        if status == 0 {
            Ok(())
        } else {
            Err(Error::EngineRejected(status))
        }
    }
}

} // verus!
