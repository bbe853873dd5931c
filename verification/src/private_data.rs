//! Parameters for private-data slots, which associate one caller-supplied
//! value with an API object. The slot objects themselves are owned and
//! driven by the outside API; only their creation parameters are modeled
//! here.

use vstd::prelude::*;

verus! {

/// Parameters to create a new private-data slot.
#[derive(Clone, Debug)]
pub struct PrivateDataSlotCreateInfo {}

impl PrivateDataSlotCreateInfo {
    /// Checks the creation parameters. There is nothing that can be rejected
    /// yet.
    pub fn validate(&self) -> (r: Result<(), ()>)
        ensures
            r is Ok,
    {
        Ok(())
    }
}

impl Default for PrivateDataSlotCreateInfo {
    fn default() -> (r: Self)
        ensures
            r == (PrivateDataSlotCreateInfo {  }),
    {
        PrivateDataSlotCreateInfo {  }
    }
}

} // verus!
