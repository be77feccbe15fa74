//! The door status and the store that holds the one current value.

use vstd::prelude::*;

verus! {

/// The state of the door as it travels over the bus.
#[derive(Clone, Copy, Debug, PartialEq, Eq, Structural)]
pub struct Tuerstatus {
    /// Passed through untouched; nothing in the library reads it.
    pub flti_only: Option<bool>,
    /// Whether the door is open.
    pub door_open: bool,
    /// Unix seconds of the last change.
    pub timestamp: u64,
}

/// Holds the current door status. The only way to change it is to replace the
/// whole value, so a reader never sees fields of two different updates.
pub struct StatusStore {
    current: Tuerstatus,
}

impl View for StatusStore {
    type V = Tuerstatus;

    closed spec fn view(&self) -> Tuerstatus {
        self.current
    }
}

impl StatusStore {
    /// The store as it is when the process starts: door closed, changed `now`.
    pub fn new(now: u64) -> (store: Self)
        ensures
            store@ == (Tuerstatus { flti_only: None, door_open: false, timestamp: now }),
    {
        StatusStore { current: Tuerstatus { flti_only: None, door_open: false, timestamp: now } }
    }

    /// A copy of the current status.
    pub fn read(&self) -> (snapshot: Tuerstatus)
        ensures
            snapshot == self@,
    {
        self.current
    }

    /// Swaps in `new_status` as a whole, whatever its timestamp.
    pub fn replace(&mut self, new_status: Tuerstatus)
        ensures
            final(self)@ == new_status,
    {
        self.current = new_status;
    }
}

} // verus!
