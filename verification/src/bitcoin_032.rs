//! Models of the `bitcoin 0.32` values whose rules differ from the version that bdk tracks.
use vstd::prelude::*;

verus! {

/// An amount as `bitcoin 0.32` holds it: any number of satoshis.
#[derive(Clone, Copy, Debug)]
pub struct Amount {
    pub sat: u64,
}

impl Amount {
    /// Builds an amount from satoshis.
    pub fn from_sat(sat: u64) -> (r: Amount)
        ensures
            r.sat == sat,
    {
        Amount { sat }
    }

    /// The amount in satoshis.
    pub fn to_sat(&self) -> (r: u64)
        ensures
            r == self.sat,
    {
        self.sat
    }
}

} // verus!
