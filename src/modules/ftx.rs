//! The transmit board: attenuator, ADC, temperature sensor and laser current digipot.

use crate::bus::{I2c, Transfer, extends, ran};
use crate::peripherals::adc::ftx::{Adc, init_transfers as adc_init_transfers};
use crate::peripherals::adc::ADC_ADDR;
use crate::peripherals::atten::{self, Attenuator, expander_address};
use crate::peripherals::digipot::{self, Digipot, digipot_address};
use crate::peripherals::temp::{
    self, TEMP_ADDR, TemperataureSensor, init_error, init_succeeded, init_trace,
};
use vstd::prelude::*;

verus! {

/// The transmit board.
pub struct Ftx<I2C: I2c> {
    /// Digital step attenuator.
    pub atten: Attenuator<I2C>,
    /// ADC.
    pub adc: Adc<I2C>,
    /// Temperature sensor and unique ID.
    pub temp: TemperataureSensor<I2C>,
    /// Laser current control.
    pub digipot: Digipot<I2C>,
}

/// A failure of one peripheral, tagged with the peripheral.
#[derive(Debug)]
pub enum Error<E> {
    /// Attenuator error.
    Atten(atten::Error<E>),
    /// ADC error.
    Adc(E),
    /// Temperature sensor error.
    Temp(temp::Error<E>),
    /// Digipot error.
    Digipot(digipot::Error<E>),
}

impl<I2C: I2c> Ftx<I2C> {
    /// Builds the board from one bus handle per peripheral. The address-select pins of the
    /// attenuator and of the digipot are tied low.
    pub fn new(atten_bus: I2C, adc_bus: I2C, temp_bus: I2C, digipot_bus: I2C) -> (r: Self)
        ensures
            r.atten.address() == expander_address(false),
            r.adc.address() == ADC_ADDR,
            r.temp.address() == TEMP_ADDR,
            r.atten.bus() == atten_bus,
            r.adc.bus() == adc_bus,
            r.temp.bus() == temp_bus,
            r.atten.history() == Seq::<Transfer>::empty(),
            r.adc.history() == Seq::<Transfer>::empty(),
            r.temp.history() == Seq::<Transfer>::empty(),
            r.atten.oks() == Seq::<bool>::empty(),
            r.adc.oks() == Seq::<bool>::empty(),
            r.temp.oks() == Seq::<bool>::empty(),
            r.digipot.address() == digipot_address(false),
            r.digipot.bus() == digipot_bus,
            r.digipot.history() == Seq::<Transfer>::empty(),
            r.digipot.oks() == Seq::<bool>::empty(),
    {
        let temp = TemperataureSensor::new(temp_bus, TEMP_ADDR);
        let atten = Attenuator::new(atten_bus, false);
        let adc = Adc::new(adc_bus);
        let digipot = Digipot::new(digipot_bus, false);
        Ftx { atten, temp, adc, digipot }
    }

    /// Initializes the attenuator, then the ADC, then the temperature sensor; the digipot
    /// keeps its last wiper position until it is set. The first failure stops the sequence
    /// and is returned tagged with its peripheral; the peripherals after it are not
    /// touched.
    pub fn init(&mut self) -> (r: Result<(), Error<I2C::Error>>)
        ensures
            final(self).atten.address() == old(self).atten.address(),
            final(self).adc.address() == old(self).adc.address(),
            final(self).temp.address() == old(self).temp.address(),
            final(self).digipot.address() == old(self).digipot.address(),
            final(self).digipot.history() == old(self).digipot.history(),
            !(r matches Err(Error::Digipot(_))),
            ran(
                old(self).atten.history(),
                final(self).atten.history(),
                old(self).atten.oks(),
                final(self).atten.oks(),
                final(self).atten.last_outcome(),
                atten::init_transfers(old(self).atten.address()),
            ),
            final(self).atten.last_outcome() is Err ==> {
                &&& r == Err::<(), Error<I2C::Error>>(
                    Error::Atten(atten::Error::I2c(final(self).atten.last_outcome()->Err_0)),
                )
                &&& final(self).adc.history() == old(self).adc.history()
                &&& final(self).adc.oks() == old(self).adc.oks()
                &&& final(self).temp.history() == old(self).temp.history()
                &&& final(self).temp.oks() == old(self).temp.oks()
            },
            final(self).atten.last_outcome() is Ok ==> ran(
                old(self).adc.history(),
                final(self).adc.history(),
                old(self).adc.oks(),
                final(self).adc.oks(),
                final(self).adc.last_outcome(),
                adc_init_transfers(old(self).adc.address()),
            ),
            final(self).atten.last_outcome() is Ok && final(self).adc.last_outcome() is Err ==> {
                &&& r == Err::<(), Error<I2C::Error>>(Error::Adc(final(self).adc.last_outcome()->Err_0))
                &&& final(self).temp.history() == old(self).temp.history()
                &&& final(self).temp.oks() == old(self).temp.oks()
            },
            final(self).atten.last_outcome() is Ok && final(self).adc.last_outcome() is Ok ==> {
                let h = final(self).temp.history();
                let k = final(self).temp.oks();
                let n = old(self).temp.history().len() as int;
                &&& extends(old(self).temp.history(), old(self).temp.oks(), h, k)
                &&& init_trace(old(self).temp.address(), h, k, n)
                &&& (r is Ok <==> init_succeeded(h, k, n))
                &&& r is Err ==> r == Err::<(), Error<I2C::Error>>(
                    Error::Temp(init_error(h, k, n, final(self).temp.last_outcome())),
                )
            },
    {
        if let Err(e) = self.atten.init() {
            return Err(Error::Atten(e));
        }
        if let Err(e) = self.adc.init() {
            return Err(Error::Adc(e));
        }
        if let Err(e) = self.temp.init() {
            return Err(Error::Temp(e));
        }
        Ok(())
    }
}

} // verus!
