use vstd::prelude::*;

use crate::client::GooseClient;

verus! {

impl GooseClient {
    /// The think-time to insert after the current iteration: no pause at
    /// all when `min_wait` is 0, otherwise a random whole number of seconds
    /// drawn from the half-open range `min_wait..max_wait` (`min_wait` is
    /// reachable, `max_wait` never is).
    pub fn wait_time(&self) -> (r: Option<usize>)
        requires
            self@.min_wait > 0 ==> self@.min_wait < self@.max_wait,
        ensures
            (r is None) == (self@.min_wait == 0),
            match r {
                Some(seconds) => self@.min_wait <= seconds < self@.max_wait,
                None => self@.min_wait == 0,
            },
    {
        if self.min_wait > 0 {
            Some(crate::rng::random_in_range(self.min_wait, self.max_wait))
        } else {
            None
        }
    }
}

} // verus!
