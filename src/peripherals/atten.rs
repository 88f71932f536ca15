//! The digital step attenuator, driven through a TCA6408A bus expander whose eight pins are
//! all outputs.

use crate::bus::{
    I2c, RecordingBus, Transfer, lemma_ran_one, lemma_ran_then, passes_on, ran, received,
};
use vstd::prelude::*;

verus! {

/// Fixed part of the bus expander's address; the low bit is the address-select pin.
pub const ADDR_PREAMBLE: u8 = 0b0100000;
/// The output-port register.
pub const REG_OUTPUT_PORT: u8 = 0x01;
/// The direction register: a 0 bit makes the pin an output.
pub const REG_CONFIGURATION: u8 = 0x03;
/// Bit 7 of the output word drives the attenuator's latch-enable pin.
pub const LATCH_ENABLE: u8 = 0x80;

/// Low-level driver of the TCA6408A bus expander.
struct Tca6408A<I2C: I2c> {
    bus: RecordingBus<I2C>,
    addr: u8,
}

/// The word written to the output port for attenuation step `step`: the step with the
/// latch-enable bit set.
pub open spec fn output_word(step: u8) -> u8 {
    step | LATCH_ENABLE
}

/// The attenuation step that output word `word` holds: its low seven bits.
pub open spec fn step_of_word(word: u8) -> u8 {
    word & 127
}

/// The bus address for address-select pin level `addr_bit`.
pub open spec fn expander_address(addr_bit: bool) -> u8 {
    ADDR_PREAMBLE | (if addr_bit { 1u8 } else { 0u8 })
}

/// A write of `word` to the output port.
pub open spec fn word_write(address: u8, word: u8) -> Transfer {
    Transfer::Write { address, bytes: seq![REG_OUTPUT_PORT, word] }
}

/// A read of the output port.
pub open spec fn word_read(address: u8, data: Seq<u8>) -> Transfer {
    Transfer::WriteRead { address, bytes: seq![REG_OUTPUT_PORT], data }
}

/// The transfers of `Attenuator::init`: all pins to outputs, then the 0 dB step.
pub open spec fn init_transfers(address: u8) -> Seq<Transfer> {
    seq![
        Transfer::Write { address, bytes: seq![REG_CONFIGURATION, 0u8] },
        word_write(address, output_word(0)),
    ]
}

impl<I2C: I2c> Tca6408A<I2C> {
    fn new(bus: I2C, addr_bit: bool) -> (r: Self)
        ensures
            r.addr == expander_address(addr_bit),
            r.bus.history() == Seq::<Transfer>::empty(),
            r.bus.oks() == Seq::<bool>::empty(),
            r.bus.inner() == bus,
    {
        Tca6408A { bus: RecordingBus::new(bus), addr: ADDR_PREAMBLE | (if addr_bit { 1u8 } else { 0u8 }) }
    }

    /// Makes every pin an output.
    fn configure_outputs(&mut self) -> (r: Result<(), I2C::Error>)
        ensures
            final(self).addr == old(self).addr,
            final(self).bus.history() == old(self).bus.history().push(init_transfers(old(self).addr)[0]),
            final(self).bus.oks() == old(self).bus.oks().push(r is Ok),
            r == final(self).bus.last_outcome(),
    {
        let cmd = [REG_CONFIGURATION, 0u8];
        self.bus.write(self.addr, &cmd)
    }

    fn write_word(&mut self, word: u8) -> (r: Result<(), I2C::Error>)
        ensures
            final(self).addr == old(self).addr,
            final(self).bus.history() == old(self).bus.history().push(word_write(old(self).addr, word)),
            final(self).bus.oks() == old(self).bus.oks().push(r is Ok),
            r == final(self).bus.last_outcome(),
    {
        let cmd = [REG_OUTPUT_PORT, word];
        self.bus.write(self.addr, &cmd)
    }

    fn read_word(&mut self) -> (r: Result<u8, I2C::Error>)
        ensures
            final(self).addr == old(self).addr,
            final(self).bus.history() == old(self).bus.history().push(word_read(old(self).addr, received(final(self).bus.history()))),
            final(self).bus.oks() == old(self).bus.oks().push(r is Ok),
            passes_on(r, final(self).bus.last_outcome()),
            received(final(self).bus.history()).len() == 1,
            r is Ok ==> r->Ok_0 == received(final(self).bus.history())[0],
    {
        let mut byte = [0u8; 1];
        let cmd = [REG_OUTPUT_PORT];
        assert(cmd@ =~= seq![REG_OUTPUT_PORT]);
        let r = self.bus.write_read(self.addr, &cmd, &mut byte);
        match r {
            Ok(()) => Ok(byte[0]),
            Err(e) => Err(e),
        }
    }
}

/// One of the 128 attenuation steps: step `n` is `n * 0.25` dB, from 0 to 31.75 dB.
#[derive(Clone, Copy, Debug, PartialEq, Eq, Structural)]
pub struct Attenuation {
    step: u8,
}

impl View for Attenuation {
    type V = u8;

    closed spec fn view(&self) -> u8 {
        self.step
    }
}

impl Attenuation {
    #[verifier::type_invariant]
    spec fn inv(self) -> bool {
        self.step < 128
    }

    /// The step `step`, if it is one of the 128.
    pub fn new(step: u8) -> (r: Option<Attenuation>)
        ensures
            r is Some <==> step < 128,
            r is Some ==> r->Some_0@ == step,
    {
        if step < 128 {
            Some(Attenuation { step })
        } else {
            None
        }
    }

    /// The step that an output word holds, once the latch-enable bit is masked off. Every
    /// masked value is a step, so this cannot fail.
    pub fn from_word(word: u8) -> (r: Attenuation)
        ensures
            r@ == step_of_word(word),
    {
        let step = word & 127;
        assert(step < 128) by (bit_vector)
            requires
                step == word & 127,
        ;
        Attenuation { step }
    }

    /// The step number, `0..128`.
    pub fn step(&self) -> (r: u8)
        ensures
            r == self@,
            r < 128,
    {
        proof {
            use_type_invariant(self);
        }
        self.step
    }
}

/// Reading back the output word written for a step gives that step: the latch-enable bit
/// that `Attenuator::set` adds is the bit that `Attenuator::get` masks off, and it is
/// always set on the wire.
pub proof fn lemma_set_get_round_trip(step: u8)
    requires
        step < 128,
    ensures
        step_of_word(output_word(step)) == step,
        output_word(step) & LATCH_ENABLE == LATCH_ENABLE,
{
    assert((step | 0x80u8) & 127u8 == step && (step | 0x80u8) & 0x80u8 == 0x80u8) by (bit_vector)
        requires
            step < 128,
    ;
}

/// High-level attenuator.
pub struct Attenuator<I2C: I2c>(Tca6408A<I2C>);

#[derive(Debug)]
pub enum Error<E> {
    /// Lower-level bus error.
    I2c(E),
}

impl<I2C: I2c> Attenuator<I2C> {
    /// The bus address of the expander.
    pub closed spec fn address(&self) -> u8 {
        self.0.addr
    }

    /// The transfers issued so far.
    pub closed spec fn history(&self) -> Seq<Transfer> {
        self.0.bus.history()
    }

    /// Whether each transfer issued so far succeeded.
    pub closed spec fn oks(&self) -> Seq<bool> {
        self.0.bus.oks()
    }

    /// What the latest bus call returned.
    pub closed spec fn last_outcome(&self) -> Result<(), I2C::Error> {
        self.0.bus.last_outcome()
    }

    /// The bus handle the driver talks through.
    pub closed spec fn bus(&self) -> I2C {
        self.0.bus.inner()
    }
}

/// `r` reports the outcome `last` of the latest bus call: `Ok` exactly when that call
/// succeeded, and otherwise its error, wrapped.
pub open spec fn reports<T, E>(r: Result<T, Error<E>>, last: Result<(), E>) -> bool {
    &&& r is Ok <==> last is Ok
    &&& r is Err ==> r->Err_0 == Error::I2c(last->Err_0)
}

impl<I2C: I2c> Attenuator<I2C> {
    pub fn new(bus: I2C, addr_bit: bool) -> (r: Self)
        ensures
            r.address() == expander_address(addr_bit),
            r.bus() == bus,
            r.history() == Seq::<Transfer>::empty(),
            r.oks() == Seq::<bool>::empty(),
    {
        Attenuator(Tca6408A::new(bus, addr_bit))
    }

    /// Makes every expander pin an output, then sets the minimum attenuation. A failed
    /// configuration write stops it.
    pub fn init(&mut self) -> (r: Result<(), Error<I2C::Error>>)
        ensures
            final(self).address() == old(self).address(),
            ran(
                old(self).history(),
                final(self).history(),
                old(self).oks(),
                final(self).oks(),
                final(self).last_outcome(),
                init_transfers(old(self).address()),
            ),
            reports(r, final(self).last_outcome()),
    {
        let ghost h0 = self.history();
        let ghost k0 = self.oks();
        let ghost t = init_transfers(self.0.addr);
        let r = self.0.configure_outputs();
        let ghost h1 = self.history();
        let ghost k1 = self.oks();
        proof {
            lemma_ran_one(h0, k0, t[0], r);
            assert(seq![t[0]] + seq![t[1]] =~= t);
        }
        if let Err(e) = r {
            proof {
                crate::bus::lemma_ran_stop(h0, h1, k0, k1, r, seq![t[0]], seq![t[1]]);
            }
            return Err(Error::I2c(e));
        }
        let zero = Attenuation::from_word(0);
        assert(0u8 & 127u8 == 0u8) by (bit_vector);
        let r = self.set(zero);
        proof {
            lemma_ran_one(h1, k1, t[1], self.last_outcome());
            lemma_ran_then(h0, h1, self.history(), k0, k1, self.oks(), Ok::<(), I2C::Error>(()), self.last_outcome(), seq![t[0]], seq![t[1]]);
        }
        r
    }

    /// Writes `atten` to the attenuator control pins, with the latch-enable bit set.
    pub fn set_raw(&mut self, atten: u8) -> (r: Result<(), Error<I2C::Error>>)
        ensures
            final(self).address() == old(self).address(),
            final(self).history() == old(self).history().push(
                word_write(old(self).address(), atten | LATCH_ENABLE),
            ),
            final(self).oks() == old(self).oks().push(r is Ok),
            reports(r, final(self).last_outcome()),
    {
        let word = atten | LATCH_ENABLE;
        match self.0.write_word(word) {
            Ok(()) => Ok(()),
            Err(e) => Err(Error::I2c(e)),
        }
    }

    /// Sets the attenuation.
    pub fn set(&mut self, atten: Attenuation) -> (r: Result<(), Error<I2C::Error>>)
        ensures
            final(self).address() == old(self).address(),
            final(self).history() == old(self).history().push(
                word_write(old(self).address(), output_word(atten@)),
            ),
            final(self).oks() == old(self).oks().push(r is Ok),
            reports(r, final(self).last_outcome()),
    {
        let step = atten.step();
        self.set_raw(step)
    }

    /// Reads the attenuation back from the output port.
    pub fn get(&mut self) -> (r: Result<Attenuation, Error<I2C::Error>>)
        ensures
            final(self).address() == old(self).address(),
            final(self).history() == old(self).history().push(
                word_read(old(self).address(), received(final(self).history())),
            ),
            final(self).oks() == old(self).oks().push(r is Ok),
            reports(r, final(self).last_outcome()),
            received(final(self).history()).len() == 1,
            r is Ok ==> r->Ok_0@ == step_of_word(received(final(self).history())[0]),
    {
        match self.0.read_word() {
            Ok(word) => Ok(Attenuation::from_word(word)),
            Err(e) => Err(Error::I2c(e)),
        }
    }
}

} // verus!
