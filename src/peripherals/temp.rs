//! The TMP117 temperature sensor and its factory unique ID.
//!
//! The sensor free-runs: `init` puts it in continuous conversion with the shortest cycle
//! and the widest averaging, and `temp_raw` reads the latest finished conversion. Polling
//! the data-ready flag is not reliable on this chip, since reading the configuration
//! register can clear it.

pub mod regs;

use crate::bus::{
    I2c, RecordingBus, Transfer, be16, extends, lemma_extends_at, lemma_extends_trans, received,
};
use regs::{
    AveragingMode, Configuration, ConversionMode, REG_CONFIGURATION, REG_EEPROM1, REG_EEPROM2,
    REG_EEPROM3, REG_TEMPERATURE,
};
use vstd::prelude::*;

verus! {

/// The sensor's bus address on both boards.
pub const TEMP_ADDR: u8 = 0x48;

/// A read of the 16-bit register `reg`.
pub open spec fn register_read(address: u8, reg: u8, data: Seq<u8>) -> Transfer {
    Transfer::WriteRead { address, bytes: seq![reg], data }
}

/// A write of `bytes` to register `reg`: the register pointer, then the data, in one
/// grouped transfer.
pub open spec fn register_write(address: u8, reg: u8, bytes: Seq<u8>) -> Transfer {
    Transfer::WriteGroup { address, parts: seq![seq![reg], bytes] }
}

/// The configuration written by a soft reset: the defaults with the reset bit set.
pub open spec fn reset_configuration() -> Configuration {
    Configuration { soft_reset: true, ..Configuration::spec_default() }
}

/// `r` reports the outcome `last` of the latest bus call: `Ok` exactly when that call
/// succeeded, and otherwise its error, wrapped.
pub open spec fn reports<T, E>(r: Result<T, Error<E>>, last: Result<(), E>) -> bool {
    &&& r is Ok <==> last is Ok
    &&& r is Err ==> r->Err_0 == Error::I2c(last->Err_0)
}

// In what follows `h` is a sensor's history and `k` its call flags, one per transfer, so
// `k[i]` says whether transfer `i` succeeded.

/// The configuration that the read at `i` returned, if it returned a valid one.
pub open spec fn read_back(h: Seq<Transfer>, i: int) -> Option<Configuration> {
    Configuration::spec_unpack(be16(h[i].data()))
}

/// How many transfers the read-modify-write starting at `i` made: the read, and the write
/// only where the read succeeded with a valid configuration.
pub open spec fn rmw_len(h: Seq<Transfer>, k: Seq<bool>, i: int) -> int {
    if k[i] && read_back(h, i) is Some { 2 } else { 1 }
}

/// The read-modify-write starting at `i` read the configuration register and, when it
/// went on, wrote `update` applied to what was read.
pub open spec fn rmw_shape(
    address: u8,
    h: Seq<Transfer>,
    k: Seq<bool>,
    i: int,
    update: spec_fn(Configuration) -> Configuration,
) -> bool {
    &&& 0 <= i && i + rmw_len(h, k, i) <= h.len()
    &&& h[i].data().len() == 2
    &&& h[i] == register_read(address, REG_CONFIGURATION, h[i].data())
    &&& rmw_len(h, k, i) == 2 ==> h[i + 1] == register_write(
        address,
        REG_CONFIGURATION,
        update(read_back(h, i)->Some_0).spec_pack(),
    )
}

/// The read-modify-write starting at `i` went through.
pub open spec fn rmw_ok(h: Seq<Transfer>, k: Seq<bool>, i: int) -> bool {
    rmw_len(h, k, i) == 2 && k[i + 1]
}

/// The error of a read-modify-write starting at `i` that stopped there: an invalid
/// configuration read back, or else the error `last` of the failed call.
pub open spec fn rmw_error<E>(h: Seq<Transfer>, k: Seq<bool>, i: int, last: Result<(), E>) -> Error<E> {
    if k[i] && read_back(h, i) is None {
        Error::InvalidConfiguration
    } else {
        Error::I2c(last->Err_0)
    }
}

/// A complete read-modify-write, made from the history (`h0`, `k0`), that left (`h`, `k`):
/// its shape, and its result `r`, given the outcome `last` of the latest call.
pub open spec fn rmw_done<E>(
    address: u8,
    h0: Seq<Transfer>,
    k0: Seq<bool>,
    h: Seq<Transfer>,
    k: Seq<bool>,
    last: Result<(), E>,
    update: spec_fn(Configuration) -> Configuration,
    r: Result<(), Error<E>>,
) -> bool {
    let n = h0.len() as int;
    &&& extends(h0, k0, h, k)
    &&& h.len() == n + rmw_len(h, k, n)
    &&& rmw_shape(address, h, k, n, update)
    &&& (r is Ok <==> rmw_ok(h, k, n))
    &&& (r is Err ==> r->Err_0 == rmw_error(h, k, n, last))
    &&& k.last() == last is Ok
}

/// The transfers of `init` from position `n` of `h`: a soft reset, then continuous
/// conversion, cycle code 0 and 64 averages, each by read-modify-write, stopping at the
/// first step that does not go through.
pub open spec fn init_trace(address: u8, h: Seq<Transfer>, k: Seq<bool>, n: int) -> bool {
    &&& 0 <= n < h.len()
    &&& h[n] == register_write(address, REG_CONFIGURATION, reset_configuration().spec_pack())
    &&& if !k[n] {
        h.len() == n + 1
    } else {
        &&& rmw_shape(address, h, k, n + 1, |c: Configuration| Configuration { mode: ConversionMode::Continuous, ..c })
        &&& if !rmw_ok(h, k, n + 1) {
            h.len() == n + 1 + rmw_len(h, k, n + 1)
        } else {
            &&& rmw_shape(address, h, k, n + 3, |c: Configuration| Configuration { conv: 0, ..c })
            &&& if !rmw_ok(h, k, n + 3) {
                h.len() == n + 3 + rmw_len(h, k, n + 3)
            } else {
                &&& rmw_shape(address, h, k, n + 5, |c: Configuration| Configuration { avg: AveragingMode::Avg64, ..c })
                &&& h.len() == n + 5 + rmw_len(h, k, n + 5)
            }
        }
    }
}

/// Every step of the `init` at `n` went through.
pub open spec fn init_succeeded(h: Seq<Transfer>, k: Seq<bool>, n: int) -> bool {
    k[n] && rmw_ok(h, k, n + 1) && rmw_ok(h, k, n + 3) && rmw_ok(h, k, n + 5)
}

/// The error of an `init` at `n` that stopped early, given the outcome `last` of its latest
/// call.
pub open spec fn init_error<E>(h: Seq<Transfer>, k: Seq<bool>, n: int, last: Result<(), E>) -> Error<E> {
    if !k[n] {
        Error::I2c(last->Err_0)
    } else if !rmw_ok(h, k, n + 1) {
        rmw_error(h, k, n + 1, last)
    } else if !rmw_ok(h, k, n + 3) {
        rmw_error(h, k, n + 3, last)
    } else {
        rmw_error(h, k, n + 5, last)
    }
}

/// The factory unique ID: the three EEPROM words, first word most significant.
pub open spec fn uid_from(w1: u16, w2: u16, w3: u16) -> u64 {
    (w1 as int * 0x1_0000_0000 + w2 as int * 0x1_0000 + w3 as int) as u64
}

/// The EEPROM register holding word `k` (0, 1 or 2) of the unique ID.
pub open spec fn eeprom_register(k: int) -> u8 {
    if k == 0 {
        REG_EEPROM1
    } else if k == 1 {
        REG_EEPROM2
    } else {
        REG_EEPROM3
    }
}

/// Joins the three EEPROM words into the 48-bit unique ID, first word most significant.
pub fn uid_of_words(w1: u16, w2: u16, w3: u16) -> (r: u64)
    ensures
        r == uid_from(w1, w2, w3),
{
    let a = w1 as u64;
    let b = w2 as u64;
    let c = w3 as u64;
    assert((a << 32u64) | (b << 16u64) | c == ((a * 0x1_0000_0000 + b * 0x1_0000 + c) as u64))
        by (bit_vector)
        requires
            a < 0x1_0000,
            b < 0x1_0000,
            c < 0x1_0000,
    ;
    (a << 32u64) | (b << 16u64) | c
}

/// Low-level TMP117 driver.
struct Tmp117<I2C: I2c> {
    bus: RecordingBus<I2C>,
    addr: u8,
}

/// High-level temperature sensor.
pub struct TemperataureSensor<I2C: I2c>(Tmp117<I2C>);

#[derive(Debug)]
pub enum Error<E> {
    /// Lower-level bus error.
    I2c(E),
    /// Timeout while waiting for a conversion.
    Timeout,
    /// The configuration register read back holds the unused conversion-mode code.
    InvalidConfiguration,
}

impl<I2C: I2c> Tmp117<I2C> {
    fn new(bus: I2C, addr: u8) -> (r: Self)
        ensures
            r.addr == addr,
            r.bus.history() == Seq::<Transfer>::empty(),
            r.bus.oks() == Seq::<bool>::empty(),
            r.bus.inner() == bus,
    {
        Tmp117 { bus: RecordingBus::new(bus), addr }
    }

    /// Reads the 16-bit register `reg`.
    fn read_reg(&mut self, reg: u8) -> (r: Result<u16, Error<I2C::Error>>)
        ensures
            final(self).addr == old(self).addr,
            final(self).bus.history() == old(self).bus.history().push(
                register_read(old(self).addr, reg, received(final(self).bus.history())),
            ),
            final(self).bus.oks() == old(self).bus.oks().push(r is Ok),
            reports(r, final(self).bus.last_outcome()),
            received(final(self).bus.history()).len() == 2,
            r is Ok ==> r->Ok_0 == be16(received(final(self).bus.history())),
    {
        let mut raw = [0u8; 2];
        let cmd = [reg];
        assert(cmd@ =~= seq![reg]);
        let r = self.bus.write_read(self.addr, &cmd, &mut raw);
        match r {
            Ok(()) => {
                proof {
                    regs::lemma_be16(raw[0], raw[1]);
                    assert(raw@ =~= seq![raw[0], raw[1]]);
                }
                Ok(((raw[0] as u16) << 8u16) | (raw[1] as u16))
            },
            Err(e) => Err(Error::I2c(e)),
        }
    }

    /// Writes `conf` to the configuration register.
    fn write_config(&mut self, conf: Configuration) -> (r: Result<(), Error<I2C::Error>>)
        requires
            conf.wf(),
        ensures
            final(self).addr == old(self).addr,
            final(self).bus.history() == old(self).bus.history().push(
                register_write(old(self).addr, REG_CONFIGURATION, conf.spec_pack()),
            ),
            final(self).bus.oks() == old(self).bus.oks().push(r is Ok),
            reports(r, final(self).bus.last_outcome()),
    {
        let bytes = conf.pack();
        let reg = [REG_CONFIGURATION];
        let r = self.bus.write_group(self.addr, &reg, &bytes);
        proof {
            assert(reg@ =~= seq![REG_CONFIGURATION]);
            assert(seq![reg@, bytes@] =~~= seq![seq![REG_CONFIGURATION], conf.spec_pack()]);
        }
        match r {
            Ok(()) => Ok(()),
            Err(e) => Err(Error::I2c(e)),
        }
    }

    /// Reads the configuration register.
    fn read_config(&mut self) -> (r: Result<Configuration, Error<I2C::Error>>)
        ensures
            final(self).addr == old(self).addr,
            final(self).bus.history() == old(self).bus.history().push(
                register_read(old(self).addr, REG_CONFIGURATION, received(final(self).bus.history())),
            ),
            final(self).bus.oks() == old(self).bus.oks().push(final(self).bus.last_outcome() is Ok),
            received(final(self).bus.history()).len() == 2,
            r is Ok <==> final(self).bus.last_outcome() is Ok && Configuration::spec_unpack(
                be16(received(final(self).bus.history())),
            ) is Some,
            r is Ok ==> Configuration::spec_unpack(be16(received(final(self).bus.history()))) == Some(r->Ok_0)
                && r->Ok_0.wf(),
            r is Err ==> r->Err_0 == (if final(self).bus.last_outcome() is Ok {
                Error::InvalidConfiguration
            } else {
                Error::I2c(final(self).bus.last_outcome()->Err_0)
            }),
    {
        let w = match self.read_reg(REG_CONFIGURATION) {
            Ok(w) => w,
            Err(e) => return Err(e),
        };
        let bytes = [(w >> 8u16) as u8, (w & 0xffu16) as u8];
        proof {
            regs::lemma_be16(bytes[0], bytes[1]);
            assert(((w >> 8u16) as u8 as u16) << 8u16 | ((w & 0xffu16) as u8 as u16) == w)
                by (bit_vector);
            assert(bytes@ =~= seq![bytes[0], bytes[1]]);
        }
        match Configuration::unpack(bytes) {
            Some(c) => Ok(c),
            None => Err(Error::InvalidConfiguration),
        }
    }

    /// Soft-resets the sensor.
    fn reset(&mut self) -> (r: Result<(), Error<I2C::Error>>)
        ensures
            final(self).addr == old(self).addr,
            final(self).bus.history() == old(self).bus.history().push(
                register_write(old(self).addr, REG_CONFIGURATION, reset_configuration().spec_pack()),
            ),
            final(self).bus.oks() == old(self).bus.oks().push(r is Ok),
            reports(r, final(self).bus.last_outcome()),
    {
        let mut con = Configuration::default();
        con.soft_reset = true;
        self.write_config(con)
    }

    /// Sets the conversion cycle time code.
    fn set_cc(&mut self, cc: u8) -> (r: Result<(), Error<I2C::Error>>)
        requires
            cc < 8,
        ensures
            final(self).addr == old(self).addr,
            rmw_done(
                old(self).addr,
                old(self).bus.history(),
                old(self).bus.oks(),
                final(self).bus.history(),
                final(self).bus.oks(),
                final(self).bus.last_outcome(),
                |c: Configuration| Configuration { conv: cc, ..c },
                r,
            ),
    {
        let ghost h0 = self.bus.history();
        let ghost k0 = self.bus.oks();
        proof {
            self.bus.lemma_aligned();
        }
        let r = match self.read_config() {
            Ok(mut conf) => {
                conf.conv = cc;
                self.write_config(conf)
            },
            Err(e) => Err(e),
        };
        proof {
            assert(self.bus.history().subrange(0, h0.len() as int) =~= h0);
            assert(self.bus.oks().subrange(0, k0.len() as int) =~= k0);
        }
        r
    }

    /// Sets the averaging mode.
    fn set_avg(&mut self, avg: AveragingMode) -> (r: Result<(), Error<I2C::Error>>)
        ensures
            final(self).addr == old(self).addr,
            rmw_done(
                old(self).addr,
                old(self).bus.history(),
                old(self).bus.oks(),
                final(self).bus.history(),
                final(self).bus.oks(),
                final(self).bus.last_outcome(),
                |c: Configuration| Configuration { avg, ..c },
                r,
            ),
    {
        let ghost h0 = self.bus.history();
        let ghost k0 = self.bus.oks();
        proof {
            self.bus.lemma_aligned();
        }
        let r = match self.read_config() {
            Ok(mut conf) => {
                conf.avg = avg;
                self.write_config(conf)
            },
            Err(e) => Err(e),
        };
        proof {
            assert(self.bus.history().subrange(0, h0.len() as int) =~= h0);
            assert(self.bus.oks().subrange(0, k0.len() as int) =~= k0);
        }
        r
    }

    /// Sets the conversion mode.
    fn set_mod(&mut self, mode: ConversionMode) -> (r: Result<(), Error<I2C::Error>>)
        ensures
            final(self).addr == old(self).addr,
            rmw_done(
                old(self).addr,
                old(self).bus.history(),
                old(self).bus.oks(),
                final(self).bus.history(),
                final(self).bus.oks(),
                final(self).bus.last_outcome(),
                |c: Configuration| Configuration { mode, ..c },
                r,
            ),
    {
        let ghost h0 = self.bus.history();
        let ghost k0 = self.bus.oks();
        proof {
            self.bus.lemma_aligned();
        }
        let r = match self.read_config() {
            Ok(mut conf) => {
                conf.mode = mode;
                self.write_config(conf)
            },
            Err(e) => Err(e),
        };
        proof {
            assert(self.bus.history().subrange(0, h0.len() as int) =~= h0);
            assert(self.bus.oks().subrange(0, k0.len() as int) =~= k0);
        }
        r
    }
}

/// What a read-modify-write states of the transfers it made stays true as more follow.
proof fn lemma_rmw_extends<E>(
    address: u8,
    h: Seq<Transfer>,
    k: Seq<bool>,
    h2: Seq<Transfer>,
    k2: Seq<bool>,
    i: int,
    update: spec_fn(Configuration) -> Configuration,
    last: Result<(), E>,
)
    requires
        rmw_shape(address, h, k, i, update),
        extends(h, k, h2, k2),
        k.len() == h.len(),
    ensures
        rmw_shape(address, h2, k2, i, update),
        rmw_len(h2, k2, i) == rmw_len(h, k, i),
        rmw_ok(h2, k2, i) == rmw_ok(h, k, i),
        rmw_error(h2, k2, i, last) == rmw_error(h, k, i, last),
{
    lemma_extends_at(h, k, h2, k2, i);
    if rmw_len(h, k, i) == 2 {
        lemma_extends_at(h, k, h2, k2, i + 1);
    }
}

impl<I2C: I2c> TemperataureSensor<I2C> {
    /// The bus address of the sensor.
    pub closed spec fn address(&self) -> u8 {
        self.0.addr
    }

    /// The transfers issued so far.
    pub closed spec fn history(&self) -> Seq<Transfer> {
        self.0.bus.history()
    }

    /// Whether each transfer issued so far succeeded.
    pub closed spec fn oks(&self) -> Seq<bool> {
        self.0.bus.oks()
    }

    /// What the latest bus call returned.
    pub closed spec fn last_outcome(&self) -> Result<(), I2C::Error> {
        self.0.bus.last_outcome()
    }

    /// The bus handle the driver talks through.
    pub closed spec fn bus(&self) -> I2C {
        self.0.bus.inner()
    }

    pub fn new(bus: I2C, addr: u8) -> (r: Self)
        ensures
            r.address() == addr,
            r.bus() == bus,
            r.history() == Seq::<Transfer>::empty(),
            r.oks() == Seq::<bool>::empty(),
    {
        TemperataureSensor(Tmp117::new(bus, addr))
    }

    /// Soft-resets the sensor, then sets continuous conversion, the shortest cycle time and
    /// 64 averages, stopping at the first step that does not go through.
    pub fn init(&mut self) -> (r: Result<(), Error<I2C::Error>>)
        ensures
            final(self).address() == old(self).address(),
            extends(old(self).history(), old(self).oks(), final(self).history(), final(self).oks()),
            init_trace(old(self).address(), final(self).history(), final(self).oks(), old(self).history().len() as int),
            r is Ok <==> init_succeeded(final(self).history(), final(self).oks(), old(self).history().len() as int),
            r is Err ==> r->Err_0 == init_error(
                final(self).history(),
                final(self).oks(),
                old(self).history().len() as int,
                final(self).last_outcome(),
            ),
    {
        proof {
            self.0.bus.lemma_aligned();
        }
        let ghost h0 = self.history();
        let ghost k0 = self.oks();
        let ghost n = h0.len() as int;
        let ghost addr = self.0.addr;
        let ghost fm = |c: Configuration| Configuration { mode: ConversionMode::Continuous, ..c };
        let ghost fc = |c: Configuration| Configuration { conv: 0, ..c };
        let ghost fa = |c: Configuration| Configuration { avg: AveragingMode::Avg64, ..c };
        let r = self.0.reset();
        let ghost h1 = self.history();
        let ghost k1 = self.oks();
        proof {
            assert(h1.subrange(0, n) =~= h0);
            assert(k1.subrange(0, n) =~= k0);
        }
        if r.is_err() {
            return r;
        }
        let r = self.0.set_mod(ConversionMode::Continuous);
        let ghost h2 = self.history();
        let ghost k2 = self.oks();
        proof {
            lemma_extends_trans(h0, k0, h1, k1, h2, k2);
            lemma_extends_at(h1, k1, h2, k2, n);
        }
        if r.is_err() {
            return r;
        }
        let r = self.0.set_cc(0);
        let ghost h3 = self.history();
        let ghost k3 = self.oks();
        proof {
            lemma_extends_trans(h0, k0, h2, k2, h3, k3);
            lemma_extends_at(h2, k2, h3, k3, n);
            lemma_rmw_extends(addr, h2, k2, h3, k3, n + 1, fm, self.last_outcome());
        }
        if r.is_err() {
            return r;
        }
        let r = self.0.set_avg(AveragingMode::Avg64);
        proof {
            let h4 = self.history();
            let k4 = self.oks();
            lemma_extends_trans(h0, k0, h3, k3, h4, k4);
            lemma_extends_at(h3, k3, h4, k4, n);
            lemma_rmw_extends(addr, h3, k3, h4, k4, n + 1, fm, self.last_outcome());
            lemma_rmw_extends(addr, h3, k3, h4, k4, n + 3, fc, self.last_outcome());
        }
        r
    }

    /// Reads the 48-bit factory unique ID from the three EEPROM words, first word most
    /// significant, stopping at the first failed read.
    pub fn uid(&mut self) -> (r: Result<u64, Error<I2C::Error>>)
        ensures
            final(self).address() == old(self).address(),
            ({
                let h0 = old(self).history();
                let h = final(self).history();
                let k = final(self).oks();
                let n = h0.len() as int;
                &&& extends(h0, old(self).oks(), h, k)
                &&& n < h.len() <= n + 3
                &&& forall|j: int|
                    n <= j < h.len() ==> #[trigger] h[j] == register_read(
                        old(self).address(),
                        eeprom_register(j - n),
                        h[j].data(),
                    ) && h[j].data().len() == 2
                &&& forall|j: int| n <= j < h.len() - 1 ==> #[trigger] k[j]
                &&& h.len() < n + 3 ==> !k[h.len() - 1]
                &&& reports(r, final(self).last_outcome())
                &&& (r is Ok <==> k[h.len() - 1])
                &&& r is Ok ==> r->Ok_0 == uid_from(
                    be16(h[n].data()),
                    be16(h[n + 1].data()),
                    be16(h[n + 2].data()),
                )
            }),
    {
        proof {
            self.0.bus.lemma_aligned();
        }
        let ghost h0 = self.history();
        let ghost k0 = self.oks();
        let ghost n = h0.len() as int;
        let r1 = self.0.read_reg(REG_EEPROM1);
        let ghost h1 = self.history();
        let ghost k1 = self.oks();
        assert(h1.subrange(0, n) =~= h0);
        assert(k1.subrange(0, n) =~= k0);
        let w1 = match r1 {
            Ok(w) => w,
            Err(e) => return Err(e),
        };
        let r2 = self.0.read_reg(REG_EEPROM2);
        let ghost h2 = self.history();
        let ghost k2 = self.oks();
        assert(h2.subrange(0, n) =~= h0);
        assert(k2.subrange(0, n) =~= k0);
        assert(h2[n] == h1[n] && k2[n] == k1[n]);
        let w2 = match r2 {
            Ok(w) => w,
            Err(e) => return Err(e),
        };
        let r3 = self.0.read_reg(REG_EEPROM3);
        let ghost h3 = self.history();
        let ghost k3 = self.oks();
        assert(h3.subrange(0, n) =~= h0);
        assert(k3.subrange(0, n) =~= k0);
        assert(h3[n] == h1[n] && h3[n + 1] == h2[n + 1] && k3[n] == k1[n] && k3[n + 1] == k2[n + 1]);
        let w3 = match r3 {
            Ok(w) => w,
            Err(e) => return Err(e),
        };
        Ok(uid_of_words(w1, w2, w3))
    }

    /// Reads the latest finished conversion: the signed temperature register, in units of
    /// 7.8125 m°C.
    pub fn temp_raw(&mut self) -> (r: Result<i16, Error<I2C::Error>>)
        ensures
            final(self).address() == old(self).address(),
            final(self).history() == old(self).history().push(
                register_read(old(self).address(), REG_TEMPERATURE, received(final(self).history())),
            ),
            final(self).oks() == old(self).oks().push(r is Ok),
            reports(r, final(self).last_outcome()),
            received(final(self).history()).len() == 2,
            r is Ok ==> r->Ok_0 == be16(received(final(self).history())) as i16,
    {
        let w = self.0.read_reg(REG_TEMPERATURE)?;
        Ok(w as i16)
    }
}

impl Default for Configuration {
    fn default() -> (r: Configuration)
        ensures
            r == Configuration::spec_default(),
    {
        Configuration {
            high_alert: false,
            low_alert: false,
            data_ready: false,
            eeprom_busy: false,
            mode: ConversionMode::Continuous,
            conv: 0,
            avg: AveragingMode::Avg8,
            t_na: false,
            pol: false,
            dr_alert: false,
            soft_reset: false,
        }
    }
}

} // verus!
