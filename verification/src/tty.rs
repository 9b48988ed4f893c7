//! Silencing the error output while native code probes devices.

use vstd::prelude::*;

verus! {

/// The error output is silent while this is held.
#[derive(Debug)]
pub struct StderrSilencer {
    pub saved_fd: i32,
}

impl StderrSilencer {
    /// Take note of the duplicate that was made of the error output, and of
    /// whether the output could then be redirected. Where either failed, nothing
    /// is silenced.
    pub fn new(saved_fd: i32, redirected: bool) -> (guard: Option<StderrSilencer>)
        ensures
            guard == (if saved_fd >= 0 && redirected {
                Some(StderrSilencer { saved_fd })
            } else {
                None
            }),
    {
        if saved_fd >= 0 && redirected {
            Some(StderrSilencer { saved_fd })
        } else {
            None
        }
    }
}

} // verus!
