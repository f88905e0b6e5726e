use vstd::prelude::*;

use crate::hardware::HardwareAction;

verus! {

/// The solenoid locks of the puzzle box, each driven through a MOSFET by one GPIO pin.
#[derive(Clone, Copy, Debug, PartialEq, Eq, Structural)]
pub enum LockId {
    /// Lock 1, on GPIO 6.
    Lock1,
    /// Lock 2, on GPIO 7.
    Lock2,
    /// Lock 3, on GPIO 8.
    Lock3,
}

/// How long (in ms) a lock is energized to open it: long enough to release the latch,
/// short enough not to overheat the solenoid.
pub const UNLOCK_PULSE_MS: u16 = 200;

/// A solenoid lock controlled by a GPIO pin.
pub struct Lock {
    pub id: LockId,
}

impl Lock {
    /// Creates a lock driven by the pin of `id`.
    pub fn new(id: LockId) -> (lock: Self)
        ensures
            lock.id == id,
    {
        Lock { id }
    }

    /// Unlocks the solenoid: the pin is driven high for `UNLOCK_PULSE_MS` (200 ms) and then low.
    pub fn unlock(&self) -> (action: HardwareAction)
        ensures
            action == unlock_action(self.id),
    {
        HardwareAction::PulseLock { lock: self.id, pulse_ms: UNLOCK_PULSE_MS }
    }
}

/// What unlocking lock `id` asks of the hardware.
pub open spec fn unlock_action(id: LockId) -> HardwareAction {
    HardwareAction::PulseLock { lock: id, pulse_ms: UNLOCK_PULSE_MS }
}

} // verus!
