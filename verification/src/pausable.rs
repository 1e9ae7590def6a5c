//! Pausing: while the pool is paused, swaps and single-sided liquidity
//! operations are refused.
use crate::state::{Pair, PairModel};
use crate::types::PairError;
use vstd::prelude::*;

verus! {

/// The outcome of the pause check.
pub open spec fn require_not_paused_spec(m: PairModel) -> Result<(), PairError> {
    if m.paused {
        Err(PairError::Paused)
    } else {
        Ok(())
    }
}

pub trait PausableModule {
    fn do_pause(&mut self);

    fn do_unpause(&mut self);

    fn require_not_paused(&self) -> Result<(), PairError>;

    fn is_paused(&self) -> bool;
}

impl PausableModule for Pair {
    fn do_pause(&mut self)
        ensures
            final(self)@ == (PairModel { paused: true, ..old(self)@ }),
    {
        self.paused = true;
    }

    fn do_unpause(&mut self)
        ensures
            final(self)@ == (PairModel { paused: false, ..old(self)@ }),
    {
        self.paused = false;
    }

    fn require_not_paused(&self) -> (res: Result<(), PairError>)
        ensures
            res == require_not_paused_spec(self@),
    {
        if self.paused {
            Err(PairError::Paused)
        } else {
            Ok(())
        }
    }

    fn is_paused(&self) -> (res: bool)
        ensures
            res == self@.paused,
    {
        self.paused
    }
}

} // verus!
