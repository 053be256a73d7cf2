use vstd::prelude::*;
use crate::crypto::os_random_bytes;
use crate::error::Error;

verus! {

/// The operating system's entropy source, behind the one operation the
/// library needs: produce a number of cryptographically secure random
/// bytes, or report the source's failure.
pub struct OsEntropy {}

impl OsEntropy {
    pub fn new() -> OsEntropy {
        OsEntropy {  }
    }

    /// Draws `size` random bytes from the operating system.
    pub fn generate(&self, size: usize) -> (r: Result<Vec<u8>, Error>)
        ensures
            match r {
                Ok(b) => b@.len() == size,
                Err(e) => e == Error::EntropyGeneratorError,
            },
    {
        match os_random_bytes(size) {
            Some(b) => Ok(b),
            None => Err(Error::EntropyGeneratorError),
        }
    }
}

} // verus!
