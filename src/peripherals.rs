//! The peripheral drivers, each over its own bus handle.

pub mod adc;
pub mod atten;
pub mod digipot;
pub mod temp;
