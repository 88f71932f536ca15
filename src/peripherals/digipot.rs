//! The digital potentiometer that sets the laser bias current: an AD5245-compatible
//! 256-position part whose wiper code maps linearly onto 0 to 50 mA.

use crate::bus::{I2c, RecordingBus, Transfer, passes_on, received};
use vstd::prelude::*;

verus! {

/// Fixed part of the address; the low bit is the AD0 pin.
pub const ADDR_BASE: u8 = 0b0101100;

/// Low-level driver of the CAT5171.
struct Cat5171<I2C: I2c> {
    addr: u8,
    bus: RecordingBus<I2C>,
}

/// The bus address for AD0 pin level `ad0`.
pub open spec fn digipot_address(ad0: bool) -> u8 {
    ADDR_BASE | (if ad0 { 1u8 } else { 0u8 })
}

/// A write of wiper code `word`, after the instruction byte 0 (no midscale reset, no
/// shutdown).
pub open spec fn wiper_write(address: u8, word: u8) -> Transfer {
    Transfer::Write { address, bytes: seq![0u8, word] }
}

impl<I2C: I2c> Cat5171<I2C> {
    fn new(bus: I2C, ad0: bool) -> (r: Self)
        ensures
            r.addr == digipot_address(ad0),
            r.bus.history() == Seq::<Transfer>::empty(),
            r.bus.oks() == Seq::<bool>::empty(),
            r.bus.inner() == bus,
    {
        Cat5171 { bus: RecordingBus::new(bus), addr: ADDR_BASE | (if ad0 { 1u8 } else { 0u8 }) }
    }

    fn set_state(&mut self, word: u8) -> (r: Result<(), I2C::Error>)
        ensures
            final(self).addr == old(self).addr,
            final(self).bus.history() == old(self).bus.history().push(wiper_write(old(self).addr, word)),
            final(self).bus.oks() == old(self).bus.oks().push(r is Ok),
            r == final(self).bus.last_outcome(),
    {
        let cmd = [0u8, word];
        self.bus.write(self.addr, &cmd)
    }

    fn get_state(&mut self) -> (r: Result<u8, I2C::Error>)
        ensures
            final(self).addr == old(self).addr,
            final(self).bus.history() == old(self).bus.history().push(
                Transfer::Read { address: old(self).addr, data: received(final(self).bus.history()) },
            ),
            final(self).bus.oks() == old(self).bus.oks().push(r is Ok),
            passes_on(r, final(self).bus.last_outcome()),
            received(final(self).bus.history()).len() == 1,
            r is Ok ==> r->Ok_0 == received(final(self).bus.history())[0],
    {
        let mut byte = [0u8; 1];
        let r = self.bus.read(self.addr, &mut byte);
        match r {
            Ok(()) => Ok(byte[0]),
            Err(e) => Err(e),
        }
    }
}

/// High-level laser current control.
pub struct Digipot<I2C: I2c>(Cat5171<I2C>);

#[derive(Debug)]
pub enum Error<E> {
    /// Lower-level bus error.
    I2c(E),
    /// The requested current was out of range.
    OutOfRange,
}

impl<I2C: I2c> Digipot<I2C> {
    /// The bus address of the potentiometer.
    pub closed spec fn address(&self) -> u8 {
        self.0.addr
    }

    /// The transfers issued so far.
    pub closed spec fn history(&self) -> Seq<Transfer> {
        self.0.bus.history()
    }

    /// Whether each transfer issued so far succeeded.
    pub closed spec fn oks(&self) -> Seq<bool> {
        self.0.bus.oks()
    }

    /// What the latest bus call returned.
    pub closed spec fn last_outcome(&self) -> Result<(), I2C::Error> {
        self.0.bus.last_outcome()
    }

    /// The bus handle the driver talks through.
    pub closed spec fn bus(&self) -> I2C {
        self.0.bus.inner()
    }
}

/// `r` reports the outcome `last` of the latest bus call: `Ok` exactly when that call
/// succeeded, and otherwise its error, wrapped.
pub open spec fn reports<T, E>(r: Result<T, Error<E>>, last: Result<(), E>) -> bool {
    &&& r is Ok <==> last is Ok
    &&& r is Err ==> r->Err_0 == Error::I2c(last->Err_0)
}

impl<I2C: I2c> Digipot<I2C> {
    pub fn new(bus: I2C, ad0: bool) -> (r: Self)
        ensures
            r.address() == digipot_address(ad0),
            r.bus() == bus,
            r.history() == Seq::<Transfer>::empty(),
            r.oks() == Seq::<bool>::empty(),
    {
        Digipot(Cat5171::new(bus, ad0))
    }

    /// Sets the wiper code: 0 is no current, 255 is 50 mA.
    pub fn set_raw(&mut self, word: u8) -> (r: Result<(), Error<I2C::Error>>)
        ensures
            final(self).address() == old(self).address(),
            final(self).history() == old(self).history().push(wiper_write(old(self).address(), word)),
            final(self).oks() == old(self).oks().push(r is Ok),
            reports(r, final(self).last_outcome()),
    {
        match self.0.set_state(word) {
            Ok(()) => Ok(()),
            Err(e) => Err(Error::I2c(e)),
        }
    }

    /// Reads the wiper code back.
    pub fn get_raw(&mut self) -> (r: Result<u8, Error<I2C::Error>>)
        ensures
            final(self).address() == old(self).address(),
            final(self).history() == old(self).history().push(
                Transfer::Read { address: old(self).address(), data: received(final(self).history()) },
            ),
            final(self).oks() == old(self).oks().push(r is Ok),
            reports(r, final(self).last_outcome()),
            received(final(self).history()).len() == 1,
            r is Ok ==> r->Ok_0 == received(final(self).history())[0],
    {
        match self.0.get_state() {
            Ok(word) => Ok(word),
            Err(e) => Err(Error::I2c(e)),
        }
    }
}

} // verus!
