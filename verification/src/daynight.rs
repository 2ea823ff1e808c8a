//! The day and night cycle, as far as whole numbers go: its length. What the
//! sun and the sky look like at a moment is computed from it elsewhere.

use vstd::prelude::*;

verus! {

/// Length of one day in hundredths of a unit of time.
pub const DAY_LENGTH: i64 = 14000;

/// The cycle of day and night.
#[derive(Clone, Copy, Debug)]
pub struct DayNight {
    /// Length of one day in hundredths of a unit of time; above zero.
    pub cycle: i64,
}

impl DayNight {
    /// The cycle has a length.
    pub open spec fn wf(&self) -> bool {
        self.cycle > 0
    }

    /// The cycle of `DAY_LENGTH`.
    pub fn new() -> (d: DayNight)
        ensures
            d.cycle == DAY_LENGTH,
            d.wf(),
    {
        DayNight { cycle: DAY_LENGTH }
    }
}

} // verus!
