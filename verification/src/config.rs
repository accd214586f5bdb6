//! Configuration values for a motor.

use vstd::prelude::*;

verus! {

/// Current settings of a motor, as fractions of the full-scale current.
#[derive(Debug, Clone, Copy)]
pub struct MotorConfig {
    /// Run current in `0..=31`.
    pub run_current: u8,
    /// Hold current in `0..=31`.
    pub hold_current: u8,
    /// Delay before the current drops to the hold current, in `0..=15`.
    pub hold_delay: u8,
}

impl Default for MotorConfig {
    /// Half the run current, a quarter of it at standstill, and a middling
    /// delay.
    fn default() -> (config: Self)
        ensures
            config.run_current == 16,
            config.hold_current == 8,
            config.hold_delay == 8,
    {
        MotorConfig { run_current: 16, hold_current: 8, hold_delay: 8 }
    }
}

} // verus!
