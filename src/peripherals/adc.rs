//! The TLA2528 ADC: the raw driver and the wrappers for the receive and transmit boards.
//! Both boards have the chip at the same address and read every channel with the same
//! number of averages; they differ in which channels they use and how.

pub mod driver;
pub mod frx;
pub mod ftx;

use driver::{OP_SET_BIT, REG_GENERAL_CFG, REG_SYSTEM_STATUS, command};
use crate::bus::Transfer;
use vstd::prelude::*;

verus! {

/// The ADC's bus address on both boards.
pub const ADC_ADDR: u8 = 0x10;
/// Samples averaged for an RF power reading.
pub const RF_AVGS: usize = 64;
/// Samples averaged for a current or voltage reading.
pub const VOLTAGE_AVGS: usize = 64;

/// The reset and calibration commands that start every initialization.
pub open spec fn reset_calibrate_transfers(address: u8) -> Seq<Transfer> {
    seq![
        command(address, OP_SET_BIT, REG_GENERAL_CFG, 1),
        command(address, OP_SET_BIT, REG_SYSTEM_STATUS, 1),
    ]
}

} // verus!
