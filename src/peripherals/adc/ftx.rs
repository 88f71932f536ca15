//! The ADC of the transmit board: RF power, photodiode, laser and LNA currents, three
//! supply rails, and the LNA bias switch.

use super::driver::{
    Adc as RawAdc, OP_CLEAR_BIT, OP_SET_BIT, PinMode, REG_GPO_VALUE, command, configure_transfers,
    valid_channels,
};
use super::{ADC_ADDR, reset_calibrate_transfers};
use crate::bus::{I2c, Transfer, lemma_ran_one, lemma_ran_stop, lemma_ran_then, ran};
use vstd::prelude::*;

verus! {

/// Analog supply (VDDA) monitor channel.
pub const VDDA: u8 = 0;
/// Photodiode current monitor channel.
pub const PDI: u8 = 1;
/// RF power detector channel.
pub const RF: u8 = 2;
/// LNA current monitor channel.
pub const LNAI: u8 = 3;
/// Laser diode current monitor channel.
pub const LDI: u8 = 4;
/// LNA supply monitor channel.
pub const VLNA: u8 = 5;
/// Digital output switching the LNA bias.
pub const LNA_EN: u8 = 6;
/// Digital supply (VDD) monitor channel.
pub const VDD: u8 = 7;

/// The pin configuration of the transmit board: seven analog inputs and the LNA enable
/// output.
pub open spec fn pin_configuration() -> Seq<(u8, PinMode)> {
    seq![
        (VDDA, PinMode::Analog),
        (PDI, PinMode::Analog),
        (RF, PinMode::Analog),
        (LNAI, PinMode::Analog),
        (LDI, PinMode::Analog),
        (VLNA, PinMode::Analog),
        (LNA_EN, PinMode::DigitalOut),
        (VDD, PinMode::Analog),
    ]
}

/// The transfers of `init`.
pub open spec fn init_transfers(address: u8) -> Seq<Transfer> {
    reset_calibrate_transfers(address) + configure_transfers(address, pin_configuration())
}

/// High-level ADC of the transmit board.
pub struct Adc<I2C: I2c>(RawAdc<I2C>);

impl<I2C: I2c> Adc<I2C> {
    /// The bus address of the chip.
    pub closed spec fn address(&self) -> u8 {
        self.0.address()
    }

    /// The transfers issued so far.
    pub closed spec fn history(&self) -> Seq<Transfer> {
        self.0.history()
    }

    /// Whether each transfer issued so far succeeded.
    pub closed spec fn oks(&self) -> Seq<bool> {
        self.0.oks()
    }

    /// What the latest bus call returned.
    pub closed spec fn last_outcome(&self) -> Result<(), I2C::Error> {
        self.0.last_outcome()
    }

    /// The bus handle the driver talks through.
    pub closed spec fn bus(&self) -> I2C {
        self.0.bus()
    }
}

impl<I2C: I2c> Adc<I2C> {
    pub fn new(bus: I2C) -> (r: Adc<I2C>)
        ensures
            r.address() == ADC_ADDR,
            r.bus() == bus,
            r.history() == Seq::<Transfer>::empty(),
            r.oks() == Seq::<bool>::empty(),
    {
        Adc(RawAdc::new(bus, ADC_ADDR))
    }

    /// The raw driver, for channel reads.
    pub fn inner_mut(&mut self) -> (r: &mut RawAdc<I2C>)
        ensures
            r.address() == old(self).address(),
            r.history() == old(self).history(),
            r.oks() == old(self).oks(),
            r.last_outcome() == old(self).last_outcome(),
            final(self).address() == final(r).address(),
            final(self).history() == final(r).history(),
            final(self).oks() == final(r).oks(),
            final(self).last_outcome() == final(r).last_outcome(),
    {
        &mut self.0
    }

    /// Resets and calibrates the chip, then configures all eight pins, stopping at the
    /// first failed write, whose error is returned.
    pub fn init(&mut self) -> (r: Result<(), I2C::Error>)
        ensures
            final(self).address() == old(self).address(),
            ran(
                old(self).history(),
                final(self).history(),
                old(self).oks(),
                final(self).oks(),
                final(self).last_outcome(),
                init_transfers(old(self).address()),
            ),
            r == final(self).last_outcome(),
    {
        let ghost h0 = self.history();
        let ghost k0 = self.oks();
        let ghost a = self.0.address();
        let ghost c0 = reset_calibrate_transfers(a)[0];
        let ghost c1 = reset_calibrate_transfers(a)[1];
        let ghost pins = configure_transfers(a, pin_configuration());
        proof {
            assert(seq![c0] + (seq![c1] + pins) =~= init_transfers(a));
            assert(seq![c0] + seq![c1] + pins =~= init_transfers(a));
        }
        let r = self.0.reset();
        let ghost h1 = self.history();
        let ghost k1 = self.oks();
        proof {
            lemma_ran_one(h0, k0, c0, r);
        }
        if r.is_err() {
            proof {
                lemma_ran_stop(h0, h1, k0, k1, r, seq![c0], seq![c1] + pins);
            }
            return r;
        }
        let r = self.0.calibrate();
        let ghost h2 = self.history();
        let ghost k2 = self.oks();
        proof {
            lemma_ran_one(h1, k1, c1, r);
            lemma_ran_then(h0, h1, h2, k0, k1, k2, Ok::<(), I2C::Error>(()), r, seq![c0], seq![c1]);
        }
        if r.is_err() {
            proof {
                lemma_ran_stop(h0, h2, k0, k2, r, seq![c0] + seq![c1], pins);
            }
            return r;
        }
        let cfgs = [
            (VDDA, PinMode::Analog),
            (PDI, PinMode::Analog),
            (RF, PinMode::Analog),
            (LNAI, PinMode::Analog),
            (LDI, PinMode::Analog),
            (VLNA, PinMode::Analog),
            (LNA_EN, PinMode::DigitalOut),
            (VDD, PinMode::Analog),
        ];
        assert(cfgs@ =~= pin_configuration());
        assert(valid_channels(cfgs@));
        let r = self.0.configure(&cfgs);
        proof {
            lemma_ran_then(h0, h2, self.history(), k0, k2, self.oks(), Ok::<(), I2C::Error>(()), r, seq![c0] + seq![c1], pins);
        }
        r
    }

    /// Switches the LNA bias on or off.
    pub fn enable_lna(&mut self, enable: bool) -> (r: Result<(), I2C::Error>)
        ensures
            final(self).address() == old(self).address(),
            final(self).history() == old(self).history().push(
                command(
                    old(self).address(),
                    if enable { OP_SET_BIT } else { OP_CLEAR_BIT },
                    REG_GPO_VALUE,
                    1u8 << LNA_EN,
                ),
            ),
            final(self).oks() == old(self).oks().push(r is Ok),
            r == final(self).last_outcome(),
    {
        self.0.digital_write(LNA_EN, enable)
    }
}

} // verus!
