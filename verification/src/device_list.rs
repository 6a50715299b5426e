//! The first device list: identifiers in the order they were added.

use vstd::prelude::*;

verus! {

/// The identifiers of the devices added so far.
pub struct SignitifyCore {
    pub devices: Vec<String>,
}

impl SignitifyCore {
    pub fn new() -> (out: Self)
        ensures
            out.devices@.len() == 0,
    {
        SignitifyCore { devices: Vec::new() }
    }

    /// Appends the device `udid` to the list.
    pub fn add_device(&mut self, udid: String)
        ensures
            final(self).devices@ == old(self).devices@.push(udid),
    {
        self.devices.push(udid);
    }
}

} // verus!
