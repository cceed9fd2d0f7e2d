use crate::error::Error;
use vstd::prelude::*;

verus! {

/// The transport stream pipeline, which does not exist yet: always `NotImplemented`.
pub fn run() -> (r: Result<(), Error>)
    ensures
        r == Err::<(), Error>(Error::NotImplemented),
{
    Err(Error::NotImplemented)
}

} // verus!
