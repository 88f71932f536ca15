//! The board assemblies: each owns one driver per peripheral, every driver over its own
//! bus handle (in practice handles that share one bus).

pub mod frx;
pub mod ftx;
