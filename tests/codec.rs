use rfof::peripherals::adc::driver::integer_avg;
use rfof::peripherals::atten::Attenuation;
use rfof::peripherals::temp::regs::{AveragingMode, Configuration, ConversionMode};

fn floor_mean(s: &[u16]) -> u16 {
    let sum: u64 = s.iter().map(|&x| x as u64).sum();
    (sum / s.len() as u64) as u16
}

#[test]
fn integer_avg_exact_values() {
    assert_eq!(integer_avg(&[1, 2, 3, 4]), 2);
    assert_eq!(integer_avg(&[10, 20, 31]), 20);
    assert_eq!(integer_avg(&[4095]), 4095);
    assert_eq!(integer_avg(&[0, 1]), 0);
    assert_eq!(integer_avg(&[7, 7, 8]), 7);
}

#[test]
fn integer_avg_of_nothing_is_zero() {
    assert_eq!(integer_avg(&[]), 0);
}

#[test]
fn integer_avg_full_scale_256_samples() {
    let s = vec![4095u16; 256];
    assert_eq!(integer_avg(&s), 4095);
    let s = vec![65535u16; 256];
    assert_eq!(integer_avg(&s), 65535);
}

#[test]
fn integer_avg_matches_floor_of_sum_over_n() {
    for n in 1..=256usize {
        let s: Vec<u16> = (0..n).map(|i| ((i * 2654435761usize) % 4096) as u16).collect();
        assert_eq!(integer_avg(&s), floor_mean(&s), "n = {}", n);
        let t: Vec<u16> = (0..n).map(|i| if i % 3 == 0 { 4095 } else { (i % 17) as u16 }).collect();
        assert_eq!(integer_avg(&t), floor_mean(&t), "n = {}", n);
    }
}

#[test]
fn attenuation_steps_are_checked() {
    assert_eq!(Attenuation::new(0).map(|a| a.step()), Some(0));
    assert_eq!(Attenuation::new(127).map(|a| a.step()), Some(127));
    assert!(Attenuation::new(128).is_none());
    assert!(Attenuation::new(255).is_none());
}

#[test]
fn attenuation_from_word_masks_latch_bit() {
    assert_eq!(Attenuation::from_word(0x80).step(), 0);
    assert_eq!(Attenuation::from_word(0xBD).step(), 61);
    assert_eq!(Attenuation::from_word(0xFF).step(), 127);
    assert_eq!(Attenuation::from_word(0x3D).step(), 61);
}

#[test]
fn configuration_default_packs_to_power_on_value() {
    let c = Configuration::default();
    // Continuous conversion, cycle code 0, 8 averages.
    assert_eq!(c.pack(), [0x00, 0x20]);
}

#[test]
fn configuration_fields_land_on_their_bits() {
    let base = Configuration {
        high_alert: false,
        low_alert: false,
        data_ready: false,
        eeprom_busy: false,
        mode: ConversionMode::Continuous,
        conv: 0,
        avg: AveragingMode::Disabled,
        t_na: false,
        pol: false,
        dr_alert: false,
        soft_reset: false,
    };
    assert_eq!(base.pack(), [0x00, 0x00]);
    assert_eq!(Configuration { high_alert: true, ..base }.pack(), [0x80, 0x00]);
    assert_eq!(Configuration { low_alert: true, ..base }.pack(), [0x40, 0x00]);
    assert_eq!(Configuration { data_ready: true, ..base }.pack(), [0x20, 0x00]);
    assert_eq!(Configuration { eeprom_busy: true, ..base }.pack(), [0x10, 0x00]);
    assert_eq!(Configuration { mode: ConversionMode::Shutdown, ..base }.pack(), [0x04, 0x00]);
    assert_eq!(Configuration { mode: ConversionMode::OneShot, ..base }.pack(), [0x0C, 0x00]);
    assert_eq!(Configuration { conv: 7, ..base }.pack(), [0x03, 0x80]);
    assert_eq!(Configuration { conv: 1, ..base }.pack(), [0x00, 0x80]);
    assert_eq!(Configuration { avg: AveragingMode::Avg8, ..base }.pack(), [0x00, 0x20]);
    assert_eq!(Configuration { avg: AveragingMode::Avg32, ..base }.pack(), [0x00, 0x40]);
    assert_eq!(Configuration { avg: AveragingMode::Avg64, ..base }.pack(), [0x00, 0x60]);
    assert_eq!(Configuration { t_na: true, ..base }.pack(), [0x00, 0x10]);
    assert_eq!(Configuration { pol: true, ..base }.pack(), [0x00, 0x08]);
    assert_eq!(Configuration { dr_alert: true, ..base }.pack(), [0x00, 0x04]);
    assert_eq!(Configuration { soft_reset: true, ..base }.pack(), [0x00, 0x02]);
}

#[test]
fn configuration_unpack_reads_each_field() {
    let c = Configuration::unpack([0xAE, 0xD5]).unwrap();
    // 1010 1110 1101 0101
    assert!(c.high_alert);
    assert!(!c.low_alert);
    assert!(c.data_ready);
    assert!(!c.eeprom_busy);
    assert_eq!(c.mode, ConversionMode::OneShot);
    assert_eq!(c.conv, 5);
    assert_eq!(c.avg, AveragingMode::Avg32);
    assert!(c.t_na);
    assert!(!c.pol);
    assert!(c.dr_alert);
    assert!(!c.soft_reset);
    // The reserved bit is ignored on the way in and written as zero.
    assert_eq!(c.pack(), [0xAE, 0xD4]);
}

#[test]
fn configuration_unpack_rejects_unused_mode() {
    assert!(Configuration::unpack([0x08, 0x00]).is_none());
    assert!(Configuration::unpack([0x00, 0x00]).is_some());
}

#[test]
fn configuration_round_trips_through_all_words() {
    for w in 0..=0xFFFFu32 {
        let bytes = [(w >> 8) as u8, w as u8];
        match Configuration::unpack(bytes) {
            Some(c) => {
                assert_eq!(c.pack(), [bytes[0], bytes[1] & 0xFE]);
                assert_eq!(Configuration::unpack(c.pack()), Some(c));
            }
            None => assert_eq!((w >> 10) & 3, 2),
        }
    }
}
