//! Drivers for the I2C peripherals of the RF-over-fiber transceiver modules: a digital step
//! attenuator behind a bus expander, a multi-channel ADC, a temperature sensor with a unique
//! ID, and a digital potentiometer setting the laser bias current. The board assemblies for
//! the receive (`Frx`) and transmit (`Ftx`) variants sit on top of them.
//!
//! Every driver records, in ghost state, the bus transfers it has issued and whether each
//! bus call succeeded, so that contracts state the exact bytes that go over the wire, how
//! returned values are decoded, that a driver stops at the first failed call, and that its
//! result passes that failure on.

pub mod bus;
pub mod modules;
pub mod peripherals;
