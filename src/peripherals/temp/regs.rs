//! The part of the TMP117 register map that the driver uses, with an explicit codec for
//! the configuration register.

use crate::bus::be16;
use vstd::prelude::*;

verus! {

/// Signed temperature result, 7.8125 m°C per LSB.
pub const REG_TEMPERATURE: u8 = 0x00;
/// The configuration register.
pub const REG_CONFIGURATION: u8 = 0x01;
/// First, second and third word of the factory unique ID.
pub const REG_EEPROM1: u8 = 0x05;
pub const REG_EEPROM2: u8 = 0x06;
pub const REG_EEPROM3: u8 = 0x08;

/// Conversion mode field (bits 11..10). The code `0b10` is unused.
#[derive(Clone, Copy, Debug, PartialEq, Eq, Structural)]
pub enum ConversionMode {
    Continuous,
    Shutdown,
    OneShot,
}

/// Averaging field (bits 6..5): how many conversions are averaged into one result.
#[derive(Clone, Copy, Debug, PartialEq, Eq, Structural)]
pub enum AveragingMode {
    Disabled,
    Avg8,
    Avg32,
    Avg64,
}

impl ConversionMode {
    pub open spec fn spec_bits(self) -> u16 {
        match self {
            ConversionMode::Continuous => 0,
            ConversionMode::Shutdown => 1,
            ConversionMode::OneShot => 3,
        }
    }

    pub open spec fn spec_from_bits(b: u16) -> Option<ConversionMode> {
        if b == 0 {
            Some(ConversionMode::Continuous)
        } else if b == 1 {
            Some(ConversionMode::Shutdown)
        } else if b == 3 {
            Some(ConversionMode::OneShot)
        } else {
            None
        }
    }

    pub fn bits(self) -> (r: u16)
        ensures
            r == self.spec_bits(),
    {
        match self {
            ConversionMode::Continuous => 0,
            ConversionMode::Shutdown => 1,
            ConversionMode::OneShot => 3,
        }
    }

    pub fn from_bits(b: u16) -> (r: Option<ConversionMode>)
        ensures
            r == ConversionMode::spec_from_bits(b),
    {
        if b == 0 {
            Some(ConversionMode::Continuous)
        } else if b == 1 {
            Some(ConversionMode::Shutdown)
        } else if b == 3 {
            Some(ConversionMode::OneShot)
        } else {
            None
        }
    }
}

impl AveragingMode {
    pub open spec fn spec_bits(self) -> u16 {
        match self {
            AveragingMode::Disabled => 0,
            AveragingMode::Avg8 => 1,
            AveragingMode::Avg32 => 2,
            AveragingMode::Avg64 => 3,
        }
    }

    pub open spec fn spec_from_bits(b: u16) -> AveragingMode {
        if b == 0 {
            AveragingMode::Disabled
        } else if b == 1 {
            AveragingMode::Avg8
        } else if b == 2 {
            AveragingMode::Avg32
        } else {
            AveragingMode::Avg64
        }
    }

    pub fn bits(self) -> (r: u16)
        ensures
            r == self.spec_bits(),
    {
        match self {
            AveragingMode::Disabled => 0,
            AveragingMode::Avg8 => 1,
            AveragingMode::Avg32 => 2,
            AveragingMode::Avg64 => 3,
        }
    }

    /// The mode of a two-bit code; every code is a mode.
    pub fn from_bits(b: u16) -> (r: AveragingMode)
        requires
            b < 4,
        ensures
            r == AveragingMode::spec_from_bits(b),
    {
        if b == 0 {
            AveragingMode::Disabled
        } else if b == 1 {
            AveragingMode::Avg8
        } else if b == 2 {
            AveragingMode::Avg32
        } else {
            AveragingMode::Avg64
        }
    }
}

/// The configuration register, field by field from the most significant bit. Bit 0 is
/// reserved and always written as zero.
#[derive(Clone, Copy, Debug, PartialEq, Eq, Structural)]
pub struct Configuration {
    pub high_alert: bool,
    pub low_alert: bool,
    pub data_ready: bool,
    pub eeprom_busy: bool,
    pub mode: ConversionMode,
    /// Conversion cycle time code, three bits.
    pub conv: u8,
    pub avg: AveragingMode,
    pub t_na: bool,
    pub pol: bool,
    pub dr_alert: bool,
    pub soft_reset: bool,
}

pub open spec fn flag(b: bool) -> u16 {
    if b { 1 } else { 0 }
}

/// Bit `i` of `w` is set.
pub open spec fn bit(w: u16, i: u16) -> bool {
    (w >> i) & 1 == 1
}

impl Configuration {
    /// The conversion cycle code fits its three bits.
    pub open spec fn wf(self) -> bool {
        self.conv < 8
    }

    /// The power-on configuration: continuous conversion, cycle code 0, 8 averages, all
    /// flags clear.
    pub open spec fn spec_default() -> Configuration {
        Configuration {
            high_alert: false,
            low_alert: false,
            data_ready: false,
            eeprom_busy: false,
            mode: ConversionMode::Continuous,
            conv: 0,
            avg: AveragingMode::Avg8,
            t_na: false,
            pol: false,
            dr_alert: false,
            soft_reset: false,
        }
    }

    /// The register word: each field at its bit offset.
    pub open spec fn spec_word(self) -> u16 {
        (flag(self.high_alert) << 15u16) | (flag(self.low_alert) << 14u16) | (flag(self.data_ready)
            << 13u16) | (flag(self.eeprom_busy) << 12u16) | (self.mode.spec_bits() << 10u16) | ((
        self.conv as u16) << 7u16) | (self.avg.spec_bits() << 5u16) | (flag(self.t_na) << 4u16) | (
        flag(self.pol) << 3u16) | (flag(self.dr_alert) << 2u16) | (flag(self.soft_reset) << 1u16)
    }

    /// The register word as sent, most significant byte first.
    pub open spec fn spec_pack(self) -> Seq<u8> {
        seq![(self.spec_word() >> 8u16) as u8, (self.spec_word() & 0xffu16) as u8]
    }

    /// The configuration that a register word holds; none where the conversion-mode field
    /// holds the unused code. The reserved bit is ignored.
    pub open spec fn spec_unpack(w: u16) -> Option<Configuration> {
        match ConversionMode::spec_from_bits((w >> 10u16) & 3) {
            Some(mode) => Some(
                Configuration {
                    high_alert: bit(w, 15),
                    low_alert: bit(w, 14),
                    data_ready: bit(w, 13),
                    eeprom_busy: bit(w, 12),
                    mode,
                    conv: ((w >> 7u16) & 7) as u8,
                    avg: AveragingMode::spec_from_bits((w >> 5u16) & 3),
                    t_na: bit(w, 4),
                    pol: bit(w, 3),
                    dr_alert: bit(w, 2),
                    soft_reset: bit(w, 1),
                },
            ),
            None => None,
        }
    }

    /// Packs the configuration into the two bytes of the register, big-endian.
    pub fn pack(&self) -> (r: [u8; 2])
        requires
            self.wf(),
        ensures
            r@ == self.spec_pack(),
    {
        let w: u16 = (bool_bit(self.high_alert) << 15u16) | (bool_bit(self.low_alert) << 14u16) | (
        bool_bit(self.data_ready) << 13u16) | (bool_bit(self.eeprom_busy) << 12u16) | (
        self.mode.bits() << 10u16) | ((self.conv as u16) << 7u16) | (self.avg.bits() << 5u16) | (
        bool_bit(self.t_na) << 4u16) | (bool_bit(self.pol) << 3u16) | (bool_bit(self.dr_alert)
            << 2u16) | (bool_bit(self.soft_reset) << 1u16);
        let r = [(w >> 8u16) as u8, (w & 0xffu16) as u8];
        assert(r@ =~= self.spec_pack());
        r
    }

    /// Unpacks the two big-endian bytes of the register; `None` where the conversion-mode
    /// field holds the unused code.
    pub fn unpack(bytes: [u8; 2]) -> (r: Option<Configuration>)
        ensures
            r == Configuration::spec_unpack(be16(bytes@)),
            r is Some ==> r->Some_0.wf(),
    {
        let w: u16 = ((bytes[0] as u16) << 8u16) | (bytes[1] as u16);
        proof {
            lemma_be16(bytes[0], bytes[1]);
        }
        let conv = ((w >> 7u16) & 7) as u8;
        assert(((w >> 7u16) & 7) < 8) by (bit_vector);
        let avg_bits = (w >> 5u16) & 3;
        assert(avg_bits < 4) by (bit_vector)
            requires
                avg_bits == (w >> 5u16) & 3,
        ;
        match ConversionMode::from_bits((w >> 10u16) & 3) {
            Some(mode) => Some(
                Configuration {
                    high_alert: (w >> 15u16) & 1 == 1,
                    low_alert: (w >> 14u16) & 1 == 1,
                    data_ready: (w >> 13u16) & 1 == 1,
                    eeprom_busy: (w >> 12u16) & 1 == 1,
                    mode,
                    conv,
                    avg: AveragingMode::from_bits(avg_bits),
                    t_na: (w >> 4u16) & 1 == 1,
                    pol: (w >> 3u16) & 1 == 1,
                    dr_alert: (w >> 2u16) & 1 == 1,
                    soft_reset: (w >> 1u16) & 1 == 1,
                },
            ),
            None => None,
        }
    }
}

fn bool_bit(b: bool) -> (r: u16)
    ensures
        r == flag(b),
{
    if b { 1 } else { 0 }
}

/// Two bytes joined most significant first are their big-endian value.
pub proof fn lemma_be16(hi: u8, lo: u8)
    ensures
        ((hi as u16) << 8u16) | (lo as u16) == be16(seq![hi, lo]),
{
    let h = hi as u16;
    let l = lo as u16;
    assert(((h << 8u16) | l) == ((h * 256 + l) as u16)) by (bit_vector)
        requires
            h < 256,
            l < 256,
    ;
}

/// Splitting a word into its two bytes and joining them again gives the word.
pub proof fn lemma_be16_split(w: u16)
    ensures
        be16(seq![(w >> 8u16) as u8, (w & 0xffu16) as u8]) == w,
{
    let hi = (w >> 8u16) as u8;
    let lo = (w & 0xffu16) as u8;
    lemma_be16(hi, lo);
    assert((((w >> 8u16) as u8 as u16) << 8u16) | ((w & 0xffu16) as u8 as u16) == w) by (bit_vector);
}

proof fn lemma_fields(
    h: u16,
    l: u16,
    d: u16,
    e: u16,
    m: u16,
    c: u16,
    a: u16,
    t: u16,
    p: u16,
    r: u16,
    s: u16,
)
    requires
        h < 2 && l < 2 && d < 2 && e < 2 && m < 4 && c < 8 && a < 4 && t < 2 && p < 2 && r < 2 && s
            < 2,
    ensures
        ({
            let w = (h << 15u16) | (l << 14u16) | (d << 13u16) | (e << 12u16) | (m << 10u16) | (c
                << 7u16) | (a << 5u16) | (t << 4u16) | (p << 3u16) | (r << 2u16) | (s << 1u16);
            &&& (w >> 15u16) & 1 == h && (w >> 14u16) & 1 == l && (w >> 13u16) & 1 == d
            &&& (w >> 12u16) & 1 == e && (w >> 10u16) & 3 == m && (w >> 7u16) & 7 == c
            &&& (w >> 5u16) & 3 == a && (w >> 4u16) & 1 == t && (w >> 3u16) & 1 == p
            &&& (w >> 2u16) & 1 == r && (w >> 1u16) & 1 == s
        }),
{
    assert({
        let w = (h << 15u16) | (l << 14u16) | (d << 13u16) | (e << 12u16) | (m << 10u16) | (c << 7u16)
            | (a << 5u16) | (t << 4u16) | (p << 3u16) | (r << 2u16) | (s << 1u16);
        &&& (w >> 15u16) & 1 == h && (w >> 14u16) & 1 == l && (w >> 13u16) & 1 == d
        &&& (w >> 12u16) & 1 == e && (w >> 10u16) & 3 == m && (w >> 7u16) & 7 == c
        &&& (w >> 5u16) & 3 == a && (w >> 4u16) & 1 == t && (w >> 3u16) & 1 == p
        &&& (w >> 2u16) & 1 == r && (w >> 1u16) & 1 == s
    }) by (bit_vector)
        requires
            h < 2 && l < 2 && d < 2 && e < 2 && m < 4 && c < 8 && a < 4 && t < 2 && p < 2 && r < 2
                && s < 2,
    ;
}

/// Unpacking the bytes that `pack` produces gives the configuration back: every field has
/// its own bits.
pub proof fn lemma_unpack_pack(c: Configuration)
    requires
        c.wf(),
    ensures
        Configuration::spec_unpack(be16(c.spec_pack())) == Some(c),
{
    lemma_be16_split(c.spec_word());
    lemma_fields(
        flag(c.high_alert),
        flag(c.low_alert),
        flag(c.data_ready),
        flag(c.eeprom_busy),
        c.mode.spec_bits(),
        c.conv as u16,
        c.avg.spec_bits(),
        flag(c.t_na),
        flag(c.pol),
        flag(c.dr_alert),
        flag(c.soft_reset),
    );
    let w = c.spec_word();
    assert(ConversionMode::spec_from_bits((w >> 10u16) & 3) == Some(c.mode));
    assert(AveragingMode::spec_from_bits((w >> 5u16) & 3) == c.avg);
    assert(((w >> 7u16) & 7) as u8 == c.conv);
}

/// Packing the configuration that `unpack` reads from a word gives the word back, with
/// the reserved bit cleared.
pub proof fn lemma_pack_unpack(w: u16)
    requires
        Configuration::spec_unpack(w) is Some,
    ensures
        be16(Configuration::spec_unpack(w)->Some_0.spec_pack()) == w & 0xfffe,
{
    let c = Configuration::spec_unpack(w)->Some_0;
    lemma_be16_split(c.spec_word());
    assert((w >> 15u16) & 1 < 2 && (w >> 14u16) & 1 < 2 && (w >> 13u16) & 1 < 2 && (w >> 12u16) & 1
        < 2 && (w >> 10u16) & 3 < 4 && (w >> 7u16) & 7 < 8 && (w >> 5u16) & 3 < 4 && (w >> 4u16) & 1
        < 2 && (w >> 3u16) & 1 < 2 && (w >> 2u16) & 1 < 2 && (w >> 1u16) & 1 < 2) by (bit_vector);
    assert(w & 0xfffe == (((w >> 15u16) & 1) << 15u16) | (((w >> 14u16) & 1) << 14u16) | (((w
        >> 13u16) & 1) << 13u16) | (((w >> 12u16) & 1) << 12u16) | (((w >> 10u16) & 3) << 10u16) | (
    ((w >> 7u16) & 7) << 7u16) | (((w >> 5u16) & 3) << 5u16) | (((w >> 4u16) & 1) << 4u16) | (((
    w >> 3u16) & 1) << 3u16) | (((w >> 2u16) & 1) << 2u16) | (((w >> 1u16) & 1) << 1u16))
        by (bit_vector);
    assert(c.mode.spec_bits() == (w >> 10u16) & 3);
    assert(c.avg.spec_bits() == (w >> 5u16) & 3);
    assert(c.conv as u16 == (w >> 7u16) & 7);
}

} // verus!
