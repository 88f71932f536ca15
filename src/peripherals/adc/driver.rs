//! A small driver for the TLA2528 eight-channel ADC / GPIO chip.

use crate::bus::{
    I2c, RecordingBus, Transfer, lemma_ran_one, lemma_ran_stop, lemma_ran_then, passes_on, ran,
    received,
};
use vstd::prelude::*;

verus! {

/// Opcode: read one register.
pub const OP_SINGLE_REG_READ: u8 = 0x10;
/// Opcode: write one register.
pub const OP_SINGLE_REG_WRITE: u8 = 0x08;
/// Opcode: set the bits of a mask in a register.
pub const OP_SET_BIT: u8 = 0x18;
/// Opcode: clear the bits of a mask in a register.
pub const OP_CLEAR_BIT: u8 = 0x20;

pub const REG_SYSTEM_STATUS: u8 = 0x00;
pub const REG_GENERAL_CFG: u8 = 0x01;
pub const REG_PIN_CFG: u8 = 0x05;
pub const REG_GPIO_CFG: u8 = 0x07;
pub const REG_GPO_DRIVE_CFG: u8 = 0x09;
pub const REG_GPO_VALUE: u8 = 0x0B;
pub const REG_CHANNEL_SEL: u8 = 0x11;

/// What a pin is used for.
#[derive(Clone, Copy, Debug, PartialEq, Eq, Structural)]
pub enum PinMode {
    Analog,
    DigitalOut,
}

/// Raw driver of one TLA2528.
pub struct Adc<I2C: I2c> {
    bus: RecordingBus<I2C>,
    addr: u8,
}

/// The three-byte command `op reg byte` to the chip at `address`.
pub open spec fn command(address: u8, op: u8, reg: u8, byte: u8) -> Transfer {
    Transfer::Write { address, bytes: seq![op, reg, byte] }
}

/// The transfers that put channel `chan` in `mode`.
pub open spec fn pin_mode_transfers(address: u8, mode: PinMode, chan: u8) -> Seq<Transfer> {
    match mode {
        PinMode::Analog => seq![command(address, OP_CLEAR_BIT, REG_PIN_CFG, 1u8 << chan)],
        PinMode::DigitalOut => seq![
            command(address, OP_SET_BIT, REG_PIN_CFG, 1u8 << chan),
            command(address, OP_SET_BIT, REG_GPIO_CFG, 1u8 << chan),
            command(address, OP_SET_BIT, REG_GPO_DRIVE_CFG, 1u8 << chan),
        ],
    }
}

/// The transfers that configure each `(channel, mode)` pair of `cfgs` in turn.
pub open spec fn configure_transfers(address: u8, cfgs: Seq<(u8, PinMode)>) -> Seq<Transfer>
    decreases cfgs.len(),
{
    if cfgs.len() == 0 {
        Seq::empty()
    } else {
        configure_transfers(address, cfgs.drop_last()) + pin_mode_transfers(
            address,
            cfgs.last().1,
            cfgs.last().0,
        )
    }
}

/// Every channel of `cfgs` is one of the eight.
pub open spec fn valid_channels(cfgs: Seq<(u8, PinMode)>) -> bool {
    forall|i: int| 0 <= i < cfgs.len() ==> #[trigger] cfgs[i].0 < 8
}

/// The number of samples read for a request of `n`.
pub open spec fn clamped_count(n: usize) -> nat {
    if n <= 256 { n as nat } else { 256 }
}

/// The 12-bit code of the `i`-th sample of `data`: a big-endian 16-bit word whose low four
/// bits are padding.
pub open spec fn sample(data: Seq<u8>, i: int) -> u16 {
    ((data[2 * i] as int * 256 + data[2 * i + 1] as int) / 16) as u16
}

/// The samples that `data` holds, two bytes each.
pub open spec fn samples(data: Seq<u8>) -> Seq<u16> {
    Seq::new(data.len() / 2, |i: int| sample(data, i))
}

pub open spec fn sum(s: Seq<u16>) -> int
    decreases s.len(),
{
    if s.len() == 0 { 0 } else { sum(s.drop_last()) + s.last() }
}

/// The integer mean of `s`, rounded down; zero for no samples.
pub open spec fn mean(s: Seq<u16>) -> int {
    if s.len() == 0 { 0 } else { sum(s) / s.len() as int }
}

impl<I2C: I2c> Adc<I2C> {
    /// The bus address of the chip.
    pub closed spec fn address(&self) -> u8 {
        self.addr
    }

    /// The transfers issued so far.
    pub closed spec fn history(&self) -> Seq<Transfer> {
        self.bus.history()
    }

    /// Whether each transfer issued so far succeeded.
    pub closed spec fn oks(&self) -> Seq<bool> {
        self.bus.oks()
    }

    /// What the latest bus call returned.
    pub closed spec fn last_outcome(&self) -> Result<(), I2C::Error> {
        self.bus.last_outcome()
    }

    /// The bus handle the driver talks through.
    pub closed spec fn bus(&self) -> I2C {
        self.bus.inner()
    }

    pub fn new(bus: I2C, addr: u8) -> (r: Self)
        ensures
            r.address() == addr,
            r.bus() == bus,
            r.history() == Seq::<Transfer>::empty(),
            r.oks() == Seq::<bool>::empty(),
    {
        Adc { bus: RecordingBus::new(bus), addr }
    }

    /// Reads one register.
    pub fn read_reg(&mut self, reg: u8) -> (r: Result<u8, I2C::Error>)
        ensures
            final(self).address() == old(self).address(),
            final(self).history() == old(self).history().push(
                Transfer::WriteRead {
                    address: old(self).address(),
                    bytes: seq![OP_SINGLE_REG_READ, reg],
                    data: received(final(self).history()),
                },
            ),
            final(self).oks() == old(self).oks().push(r is Ok),
            passes_on(r, final(self).last_outcome()),
            received(final(self).history()).len() == 1,
            r is Ok ==> r->Ok_0 == received(final(self).history())[0],
    {
        let mut byte = [0u8; 1];
        let cmd = [OP_SINGLE_REG_READ, reg];
        let r = self.bus.write_read(self.addr, &cmd, &mut byte);
        match r {
            Ok(()) => Ok(byte[0]),
            Err(e) => Err(e),
        }
    }

    fn send(&mut self, op: u8, reg: u8, byte: u8) -> (r: Result<(), I2C::Error>)
        ensures
            final(self).address() == old(self).address(),
            final(self).history() == old(self).history().push(
                command(old(self).address(), op, reg, byte),
            ),
            final(self).oks() == old(self).oks().push(r is Ok),
            r == final(self).last_outcome(),
    {
        let cmd = [op, reg, byte];
        self.bus.write(self.addr, &cmd)
    }

    fn set_bit(&mut self, reg: u8, bit: u8) -> (r: Result<(), I2C::Error>)
        requires
            bit < 8,
        ensures
            final(self).address() == old(self).address(),
            final(self).history() == old(self).history().push(
                command(old(self).address(), OP_SET_BIT, reg, 1u8 << bit),
            ),
            final(self).oks() == old(self).oks().push(r is Ok),
            r == final(self).last_outcome(),
    {
        self.send(OP_SET_BIT, reg, 1u8 << bit)
    }

    fn clear_bit(&mut self, reg: u8, bit: u8) -> (r: Result<(), I2C::Error>)
        requires
            bit < 8,
        ensures
            final(self).address() == old(self).address(),
            final(self).history() == old(self).history().push(
                command(old(self).address(), OP_CLEAR_BIT, reg, 1u8 << bit),
            ),
            final(self).oks() == old(self).oks().push(r is Ok),
            r == final(self).last_outcome(),
    {
        self.send(OP_CLEAR_BIT, reg, 1u8 << bit)
    }

    fn write_reg(&mut self, reg: u8, byte: u8) -> (r: Result<(), I2C::Error>)
        ensures
            final(self).address() == old(self).address(),
            final(self).history() == old(self).history().push(
                command(old(self).address(), OP_SINGLE_REG_WRITE, reg, byte),
            ),
            final(self).oks() == old(self).oks().push(r is Ok),
            r == final(self).last_outcome(),
    {
        self.send(OP_SINGLE_REG_WRITE, reg, byte)
    }

    /// Reads `min(n, 256)` samples in one block and averages them.
    fn read_and_average(&mut self, n: usize) -> (r: Result<u16, I2C::Error>)
        ensures
            final(self).address() == old(self).address(),
            final(self).history() == old(self).history().push(
                Transfer::Read { address: old(self).address(), data: received(final(self).history()) },
            ),
            final(self).oks() == old(self).oks().push(r is Ok),
            passes_on(r, final(self).last_outcome()),
            received(final(self).history()).len() == 2 * clamped_count(n),
            r is Ok ==> r->Ok_0 == mean(samples(received(final(self).history()))),
            r is Ok ==> r->Ok_0 < 4096,
    {
        let trunc_n: usize = if n <= 256 { n } else { 256 };
        let mut bytes: Vec<u8> = vec![0u8; trunc_n * 2];
        let r = self.bus.read(self.addr, bytes.as_mut_slice());
        match r {
            Ok(()) => {
                let codes = decode_samples(&bytes);
                proof {
                    lemma_mean_of_samples(bytes@);
                }
                Ok(integer_avg(codes.as_slice()))
            },
            Err(e) => Err(e),
        }
    }

    /// Starts a software reset of the chip.
    pub fn reset(&mut self) -> (r: Result<(), I2C::Error>)
        ensures
            final(self).address() == old(self).address(),
            final(self).history() == old(self).history().push(
                command(old(self).address(), OP_SET_BIT, REG_GENERAL_CFG, 1),
            ),
            final(self).oks() == old(self).oks().push(r is Ok),
            r == final(self).last_outcome(),
    {
        assert((1u8 << 0u8) == 1u8) by (bit_vector);
        self.set_bit(REG_GENERAL_CFG, 0)
    }

    /// Starts an offset calibration.
    pub fn calibrate(&mut self) -> (r: Result<(), I2C::Error>)
        ensures
            final(self).address() == old(self).address(),
            final(self).history() == old(self).history().push(
                command(old(self).address(), OP_SET_BIT, REG_SYSTEM_STATUS, 1),
            ),
            final(self).oks() == old(self).oks().push(r is Ok),
            r == final(self).last_outcome(),
    {
        assert((1u8 << 0u8) == 1u8) by (bit_vector);
        self.set_bit(REG_SYSTEM_STATUS, 0)
    }

    /// Puts channel `chan` in `mode`: an analog input, or a push-pull digital output. The
    /// writes stop at the first that fails, and the result is that of the last write made.
    pub fn set_pin_mode(&mut self, mode: PinMode, chan: u8) -> (r: Result<(), I2C::Error>)
        requires
            chan < 8,
        ensures
            final(self).address() == old(self).address(),
            ran(
                old(self).history(),
                final(self).history(),
                old(self).oks(),
                final(self).oks(),
                final(self).last_outcome(),
                pin_mode_transfers(old(self).address(), mode, chan),
            ),
            r == final(self).last_outcome(),
    {
        let ghost h0 = self.history();
        let ghost k0 = self.oks();
        let ghost a = self.addr;
        match mode {
            PinMode::Analog => {
                let r = self.clear_bit(REG_PIN_CFG, chan);
                proof {
                    lemma_ran_one(h0, k0, command(a, OP_CLEAR_BIT, REG_PIN_CFG, 1u8 << chan), r);
                }
                r
            },
            PinMode::DigitalOut => {
                let ghost c1 = command(a, OP_SET_BIT, REG_PIN_CFG, 1u8 << chan);
                let ghost c2 = command(a, OP_SET_BIT, REG_GPIO_CFG, 1u8 << chan);
                let ghost c3 = command(a, OP_SET_BIT, REG_GPO_DRIVE_CFG, 1u8 << chan);
                let r = self.set_bit(REG_PIN_CFG, chan);
                let ghost h1 = self.history();
                let ghost k1 = self.oks();
                proof {
                    lemma_ran_one(h0, k0, c1, r);
                    assert(seq![c1] + seq![c2, c3] =~= pin_mode_transfers(a, mode, chan));
                }
                if r.is_err() {
                    proof {
                        lemma_ran_stop(h0, h1, k0, k1, r, seq![c1], seq![c2, c3]);
                    }
                    return r;
                }
                let r = self.set_bit(REG_GPIO_CFG, chan);
                let ghost h2 = self.history();
                let ghost k2 = self.oks();
                proof {
                    lemma_ran_one(h1, k1, c2, r);
                    lemma_ran_then(h0, h1, h2, k0, k1, k2, Ok::<(), I2C::Error>(()), r, seq![c1], seq![c2]);
                    assert(seq![c1] + seq![c2] + seq![c3] =~= pin_mode_transfers(a, mode, chan));
                }
                if r.is_err() {
                    proof {
                        lemma_ran_stop(h0, h2, k0, k2, r, seq![c1] + seq![c2], seq![c3]);
                    }
                    return r;
                }
                let r = self.set_bit(REG_GPO_DRIVE_CFG, chan);
                proof {
                    lemma_ran_one(h2, k2, c3, r);
                    lemma_ran_then(h0, h2, self.history(), k0, k2, self.oks(), Ok::<(), I2C::Error>(()), r, seq![c1] + seq![c2], seq![c3]);
                }
                r
            },
        }
    }

    /// Selects channel `chan` and reads the mean of `min(avgs, 256)` samples of it, a 12-bit
    /// code. The channel must have been configured as analog. No read follows a failed
    /// channel selection, and the result passes on the failing call's error.
    pub fn read_chan_with_average(&mut self, chan: u8, avgs: usize) -> (r: Result<u16, I2C::Error>)
        ensures
            final(self).address() == old(self).address(),
            passes_on(r, final(self).last_outcome()),
            ({
                let h0 = old(self).history();
                let h = final(self).history();
                let k0 = old(self).oks();
                let k = final(self).oks();
                let sel = command(old(self).address(), OP_SINGLE_REG_WRITE, REG_CHANNEL_SEL, chan);
                ||| h == h0.push(sel) && k == k0.push(false)
                ||| h == h0.push(sel).push(
                    Transfer::Read { address: old(self).address(), data: received(h) },
                ) && k == k0.push(true).push(r is Ok) && received(h).len() == 2 * clamped_count(avgs)
                    && (r is Ok ==> r->Ok_0 == mean(samples(received(h))))
            }),
            r is Ok ==> r->Ok_0 < 4096,
    {
        match self.write_reg(REG_CHANNEL_SEL, chan) {
            Ok(()) => self.read_and_average(avgs),
            Err(e) => Err(e),
        }
    }

    /// Drives the digital output `chan` high or low. The channel must have been configured
    /// as a digital output.
    pub fn digital_write(&mut self, chan: u8, set: bool) -> (r: Result<(), I2C::Error>)
        requires
            chan < 8,
        ensures
            final(self).address() == old(self).address(),
            final(self).history() == old(self).history().push(
                command(
                    old(self).address(),
                    if set { OP_SET_BIT } else { OP_CLEAR_BIT },
                    REG_GPO_VALUE,
                    1u8 << chan,
                ),
            ),
            final(self).oks() == old(self).oks().push(r is Ok),
            r == final(self).last_outcome(),
    {
        if set {
            self.set_bit(REG_GPO_VALUE, chan)
        } else {
            self.clear_bit(REG_GPO_VALUE, chan)
        }
    }

    /// Configures each `(channel, mode)` pair of `pin_cfgs` in turn, stopping at the first
    /// failed write, whose error is returned. With no pairs nothing is sent.
    pub fn configure(&mut self, pin_cfgs: &[(u8, PinMode)]) -> (r: Result<(), I2C::Error>)
        requires
            valid_channels(pin_cfgs@),
        ensures
            final(self).address() == old(self).address(),
            pin_cfgs@.len() == 0 ==> r is Ok && final(self).history() == old(self).history()
                && final(self).oks() == old(self).oks(),
            pin_cfgs@.len() > 0 ==> r == final(self).last_outcome() && ran(
                old(self).history(),
                final(self).history(),
                old(self).oks(),
                final(self).oks(),
                final(self).last_outcome(),
                configure_transfers(old(self).address(), pin_cfgs@),
            ),
    {
        let ghost h0 = self.history();
        let ghost k0 = self.oks();
        let ghost all = configure_transfers(self.addr, pin_cfgs@);
        let mut i: usize = 0;
        while i < pin_cfgs.len()
            invariant
                0 <= i <= pin_cfgs@.len(),
                valid_channels(pin_cfgs@),
                self.addr == old(self).addr,
                all == configure_transfers(self.addr, pin_cfgs@),
                h0 == old(self).history(),
                k0 == old(self).oks(),
                i == 0 ==> self.history() == h0 && self.oks() == k0,
                i > 0 ==> self.last_outcome() is Ok && ran(
                    h0,
                    self.history(),
                    k0,
                    self.oks(),
                    self.last_outcome(),
                    configure_transfers(self.addr, pin_cfgs@.take(i as int)),
                ),
            decreases pin_cfgs@.len() - i,
        {
            let (chan, mode) = pin_cfgs[i];
            let ghost hb = self.history();
            let ghost kb = self.oks();
            let ghost done = configure_transfers(self.addr, pin_cfgs@.take(i as int));
            let ghost step = pin_mode_transfers(self.addr, mode, chan);
            let ghost upto = configure_transfers(self.addr, pin_cfgs@.take(i + 1));
            proof {
                assert(pin_cfgs@.take(i + 1).drop_last() =~= pin_cfgs@.take(i as int));
                assert(upto == done + step);
                lemma_configure_prefix(self.addr, pin_cfgs@, i + 1);
                assert(all =~= upto + all.skip(upto.len() as int));
                assert(chan < 8);
            }
            let r = self.set_pin_mode(mode, chan);
            proof {
                if i == 0 {
                    assert(pin_cfgs@.take(0) =~= Seq::<(u8, PinMode)>::empty());
                    assert(done =~= Seq::<Transfer>::empty());
                    assert(upto =~= step);
                } else {
                    lemma_ran_then(h0, hb, self.history(), k0, kb, self.oks(), Ok::<(), I2C::Error>(()), r, done, step);
                }
            }
            if r.is_err() {
                proof {
                    lemma_ran_stop(h0, self.history(), k0, self.oks(), r, upto, all.skip(upto.len() as int));
                }
                return r;
            }
            i = i + 1;
        }
        proof {
            assert(pin_cfgs@.take(i as int) =~= pin_cfgs@);
            if i > 0 {
                let l = self.last_outcome();
                assert(l == Ok::<(), I2C::Error>(l->Ok_0));
            }
        }
        Ok(())
    }
}

/// The transfers for the first `j` pairs begin the transfers for all of them.
proof fn lemma_configure_prefix(address: u8, cfgs: Seq<(u8, PinMode)>, j: int)
    requires
        0 <= j <= cfgs.len(),
    ensures
        configure_transfers(address, cfgs.take(j)).len() <= configure_transfers(address, cfgs).len(),
        configure_transfers(address, cfgs).take(configure_transfers(address, cfgs.take(j)).len() as int)
            == configure_transfers(address, cfgs.take(j)),
    decreases cfgs.len(),
{
    let whole = configure_transfers(address, cfgs);
    if j == cfgs.len() {
        assert(cfgs.take(j) =~= cfgs);
        assert(whole.take(whole.len() as int) =~= whole);
    } else {
        let init = cfgs.drop_last();
        assert(init.take(j) =~= cfgs.take(j));
        lemma_configure_prefix(address, init, j);
        let part = configure_transfers(address, init);
        let pre = configure_transfers(address, cfgs.take(j));
        assert(whole == part + pin_mode_transfers(address, cfgs.last().1, cfgs.last().0));
        assert(whole.take(pre.len() as int) =~= part.take(pre.len() as int));
    }
}

/// The 12-bit codes of the big-endian samples in `bytes`.
fn decode_samples(bytes: &Vec<u8>) -> (r: Vec<u16>)
    requires
        bytes@.len() <= 512,
    ensures
        r@ == samples(bytes@),
{
    let count: usize = bytes.len() / 2;
    let mut out: Vec<u16> = Vec::new();
    let mut i: usize = 0;
    while i < count
        invariant
            count == bytes@.len() / 2,
            bytes@.len() <= 512,
            0 <= i <= count,
            out@ == samples(bytes@).take(i as int),
        decreases count - i,
    {
        let hi = bytes[2 * i];
        let lo = bytes[2 * i + 1];
        let word: u16 = ((hi as u16) << 8) | (lo as u16);
        let code: u16 = word >> 4;
        proof {
            let h = hi as u16;
            let l = lo as u16;
            assert(((h << 8u16) | l) == ((h * 256 + l) as u16) && (((h << 8u16) | l) >> 4u16) == ((
            (h << 8u16) | l) / 16u16)) by (bit_vector)
                requires
                    h < 256,
                    l < 256,
            ;
            assert(code == sample(bytes@, i as int));
        }
        out.push(code);
        proof {
            assert(out@ =~= samples(bytes@).take(i + 1));
        }
        i = i + 1;
    }
    proof {
        assert(out@ =~= samples(bytes@));
    }
    out
}

proof fn lemma_sum_le(s: Seq<u16>, m: int)
    requires
        forall|i: int| 0 <= i < s.len() ==> s[i] <= m,
    ensures
        0 <= sum(s) <= s.len() * m,
    decreases s.len(),
{
    if s.len() > 0 {
        lemma_sum_le(s.drop_last(), m);
        assert(s.len() * m == (s.len() - 1) * m + m) by (nonlinear_arith);
    }
}

/// The mean of the samples of any bytes is a 12-bit code.
proof fn lemma_mean_of_samples(data: Seq<u8>)
    ensures
        0 <= mean(samples(data)) < 4096,
{
    let s = samples(data);
    if s.len() > 0 {
        assert forall|i: int| 0 <= i < s.len() implies s[i] <= 4095 by {
            assert(data[2 * i] as int * 256 + data[2 * i + 1] as int <= 65535);
        }
        lemma_sum_le(s, 4095);
        vstd::arithmetic::div_mod::lemma_div_pos_is_pos(sum(s), s.len() as int);
        vstd::arithmetic::div_mod::lemma_div_is_ordered(sum(s), 4095 * s.len() as int, s.len() as int);
        vstd::arithmetic::div_mod::lemma_div_by_multiple(4095, s.len() as int);
    }
}

proof fn lemma_sum_push(s: Seq<u16>, i: int)
    requires
        0 <= i < s.len(),
    ensures
        sum(s.take(i + 1)) == sum(s.take(i)) + s[i],
{
    assert(s.take(i + 1).drop_last() =~= s.take(i));
}

/// The mean of `nums`, rounded down, computed without a wider accumulator: a running
/// quotient `avg` and remainder `err` with `avg * n + err` equal to the sum so far.
pub fn integer_avg(nums: &[u16]) -> (r: u16)
    requires
        nums@.len() <= 32768,
    ensures
        r == mean(nums@),
{
    let n = nums.len() as u16;
    let mut avg: u16 = 0;
    let mut err: u16 = 0;
    let mut i: usize = 0;
    while i < nums.len()
        invariant
            n as int == nums@.len(),
            n <= 32768,
            0 <= i <= nums@.len(),
            i > 0 ==> err < n,
            i == 0 ==> err == 0 && avg == 0,
            avg as int * n as int + err as int == sum(nums@.take(i as int)),
            sum(nums@.take(i as int)) <= i as int * 65535,
        decreases nums@.len() - i,
    {
        let num = nums[i];
        proof {
            lemma_sum_push(nums@, i as int);
            vstd::arithmetic::div_mod::lemma_fundamental_div_mod(num as int, n as int);
        }
        let e1: u16 = err + num % n;
        proof {
            vstd::arithmetic::div_mod::lemma_fundamental_div_mod(e1 as int, n as int);
            let q = avg as int + (num / n) as int + (e1 / n) as int;
            assert(q * n + (e1 % n) as int == sum(nums@.take(i + 1))) by (nonlinear_arith)
                requires
                    num as int == n as int * (num / n) as int + (num % n) as int,
                    e1 as int == n as int * (e1 / n) as int + (e1 % n) as int,
                    e1 as int == err as int + (num % n) as int,
                    avg as int * n as int + err as int == sum(nums@.take(i as int)),
                    sum(nums@.take(i + 1)) == sum(nums@.take(i as int)) + num,
                    q == avg as int + (num / n) as int + (e1 / n) as int,
            ;
            assert(q <= 65535) by (nonlinear_arith)
                requires
                    q * n + (e1 % n) as int <= (i + 1) * 65535,
                    (e1 % n) as int >= 0,
                    i + 1 <= n,
                    n > 0,
            ;
        }
        avg = avg + num / n + e1 / n;
        err = e1 % n;
        i = i + 1;
    }
    proof {
        assert(nums@.take(i as int) =~= nums@);
        if nums@.len() > 0 {
            vstd::arithmetic::div_mod::lemma_fundamental_div_mod_converse(
                sum(nums@),
                n as int,
                avg as int,
                err as int,
            );
        }
    }
    avg
}

} // verus!
