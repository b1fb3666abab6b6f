use vstd::prelude::*;

pub mod coordinator;
pub mod lemmas;
pub mod registry;
pub mod sync;

use crate::registry::Registry;

verus! {

/// State shared by the command handlers and the notification handlers.
pub struct Data {
    pub waitlist: Registry,
}

impl Data {
    /// State at start: an empty, available waitlist.
    pub fn new() -> (r: Self)
        ensures
            r.waitlist.wf(),
            r.waitlist.is_available(),
            r.waitlist.entries().len() == 0,
    {
        Data { waitlist: Registry::new() }
    }
}

} // verus!
