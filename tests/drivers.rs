use rfof::bus::{I2c, Operation};
use rfof::modules::frx::{Error as FrxError, Frx};
use rfof::modules::ftx::{Error as FtxError, Ftx};
use rfof::peripherals::adc::driver::{Adc, PinMode};
use rfof::peripherals::adc::frx::Adc as FrxAdc;
use rfof::peripherals::adc::ftx::Adc as FtxAdc;
use rfof::peripherals::atten::{Attenuation, Attenuator};
use rfof::peripherals::digipot::{Digipot, Error as DigipotError};
use rfof::peripherals::temp::{uid_of_words, Error as TempError, TemperataureSensor};
use std::cell::RefCell;
use std::collections::VecDeque;
use std::rc::Rc;

#[derive(Debug, Clone, PartialEq)]
enum Rec {
    Read(u8, usize),
    Write(u8, Vec<u8>),
    WriteRead(u8, Vec<u8>, usize),
    Group(u8, Vec<Vec<u8>>),
}

#[derive(Debug, PartialEq)]
struct Fault;

#[derive(Default)]
struct State {
    log: Vec<Rec>,
    replies: VecDeque<Vec<u8>>,
    fail_addr: Option<u8>,
    fail_after: Option<usize>,
}

/// A bus handle that records every transfer and answers reads from a queue.
#[derive(Clone)]
struct MockBus(Rc<RefCell<State>>);

impl MockBus {
    fn new() -> Self {
        MockBus(Rc::new(RefCell::new(State::default())))
    }

    fn reply(&self, bytes: &[u8]) {
        self.0.borrow_mut().replies.push_back(bytes.to_vec());
    }

    fn log(&self) -> Vec<Rec> {
        self.0.borrow().log.clone()
    }

    fn fail_at(&self, addr: u8) {
        self.0.borrow_mut().fail_addr = Some(addr);
    }

    fn fail_after(&self, n: usize) {
        self.0.borrow_mut().fail_after = Some(n);
    }

    fn step(&mut self, address: u8, rec: Rec, read: Option<&mut [u8]>) -> Result<(), Fault> {
        let mut st = self.0.borrow_mut();
        st.log.push(rec);
        if st.fail_addr == Some(address) {
            return Err(Fault);
        }
        if let Some(n) = st.fail_after {
            if st.log.len() > n {
                return Err(Fault);
            }
        }
        if let Some(buf) = read {
            let data = st.replies.pop_front().unwrap_or_default();
            for (i, b) in buf.iter_mut().enumerate() {
                *b = data.get(i).copied().unwrap_or(0);
            }
        }
        Ok(())
    }
}

impl I2c for MockBus {
    type Error = Fault;

    fn read(&mut self, address: u8, read: &mut [u8]) -> Result<(), Fault> {
        let rec = Rec::Read(address, read.len());
        self.step(address, rec, Some(read))
    }

    fn write(&mut self, address: u8, write: &[u8]) -> Result<(), Fault> {
        self.step(address, Rec::Write(address, write.to_vec()), None)
    }

    fn write_read(&mut self, address: u8, write: &[u8], read: &mut [u8]) -> Result<(), Fault> {
        let rec = Rec::WriteRead(address, write.to_vec(), read.len());
        self.step(address, rec, Some(read))
    }

    fn transaction(&mut self, address: u8, operations: &mut [Operation<'_>]) -> Result<(), Fault> {
        let parts = operations
            .iter()
            .map(|op| match op {
                Operation::Write(b) => b.to_vec(),
                Operation::Read(b) => vec![0; b.len()],
            })
            .collect();
        self.step(address, Rec::Group(address, parts), None)
    }
}

/// A bus expander that holds its output port, as the hardware does.
struct ExpanderBus {
    port: u8,
}

impl I2c for ExpanderBus {
    type Error = Fault;

    fn read(&mut self, _address: u8, _read: &mut [u8]) -> Result<(), Fault> {
        Err(Fault)
    }

    fn write(&mut self, _address: u8, write: &[u8]) -> Result<(), Fault> {
        if write.len() == 2 && write[0] == 0x01 {
            self.port = write[1];
        }
        Ok(())
    }

    fn write_read(&mut self, _address: u8, write: &[u8], read: &mut [u8]) -> Result<(), Fault> {
        if write == [0x01] {
            read[0] = self.port;
            Ok(())
        } else {
            Err(Fault)
        }
    }

    fn transaction(&mut self, _address: u8, _operations: &mut [Operation<'_>]) -> Result<(), Fault> {
        Err(Fault)
    }
}

fn config_write(bytes: [u8; 2]) -> Rec {
    Rec::Group(0x48, vec![vec![0x01], bytes.to_vec()])
}

fn config_read() -> Rec {
    Rec::WriteRead(0x48, vec![0x01], 2)
}

// ---- ADC

#[test]
fn adc_reset_and_calibrate_set_bit_zero() {
    let bus = MockBus::new();
    let mut adc = Adc::new(bus.clone(), 0x10);
    adc.reset().unwrap();
    adc.calibrate().unwrap();
    assert_eq!(
        bus.log(),
        vec![Rec::Write(0x10, vec![0x18, 0x01, 0x01]), Rec::Write(0x10, vec![0x18, 0x00, 0x01])]
    );
}

#[test]
fn adc_pin_modes() {
    let bus = MockBus::new();
    let mut adc = Adc::new(bus.clone(), 0x10);
    adc.set_pin_mode(PinMode::Analog, 3).unwrap();
    adc.set_pin_mode(PinMode::DigitalOut, 6).unwrap();
    assert_eq!(
        bus.log(),
        vec![
            Rec::Write(0x10, vec![0x20, 0x05, 0x08]),
            Rec::Write(0x10, vec![0x18, 0x05, 0x40]),
            Rec::Write(0x10, vec![0x18, 0x07, 0x40]),
            Rec::Write(0x10, vec![0x18, 0x09, 0x40]),
        ]
    );
}

#[test]
fn adc_pin_mode_stops_at_first_failure() {
    let bus = MockBus::new();
    bus.fail_after(1);
    let mut adc = Adc::new(bus.clone(), 0x10);
    assert_eq!(adc.set_pin_mode(PinMode::DigitalOut, 2), Err(Fault));
    assert_eq!(bus.log().len(), 2);
}

#[test]
fn adc_digital_write_sets_and_clears() {
    let bus = MockBus::new();
    let mut adc = Adc::new(bus.clone(), 0x10);
    adc.digital_write(6, true).unwrap();
    adc.digital_write(6, false).unwrap();
    assert_eq!(
        bus.log(),
        vec![Rec::Write(0x10, vec![0x18, 0x0B, 0x40]), Rec::Write(0x10, vec![0x20, 0x0B, 0x40])]
    );
}

#[test]
fn adc_read_reg() {
    let bus = MockBus::new();
    bus.reply(&[0x5A]);
    let mut adc = Adc::new(bus.clone(), 0x10);
    assert_eq!(adc.read_reg(0x11), Ok(0x5A));
    assert_eq!(bus.log(), vec![Rec::WriteRead(0x10, vec![0x10, 0x11], 1)]);
}

#[test]
fn adc_read_chan_with_average_selects_and_averages() {
    let bus = MockBus::new();
    // Codes 100, 200, 301 with four padding bits each.
    bus.reply(&[0x06, 0x40, 0x0C, 0x80, 0x12, 0xD0]);
    let mut adc = Adc::new(bus.clone(), 0x10);
    assert_eq!(adc.read_chan_with_average(2, 3), Ok(200));
    assert_eq!(bus.log(), vec![Rec::Write(0x10, vec![0x08, 0x11, 0x02]), Rec::Read(0x10, 6)]);
}

#[test]
fn adc_read_drops_padding_bits() {
    let bus = MockBus::new();
    bus.reply(&[0xFF, 0xFF]);
    let mut adc = Adc::new(bus.clone(), 0x10);
    assert_eq!(adc.read_chan_with_average(0, 1), Ok(4095));
}

#[test]
fn adc_read_caps_at_256_samples() {
    let bus = MockBus::new();
    bus.reply(&[0xFF; 512]);
    let mut adc = Adc::new(bus.clone(), 0x10);
    assert_eq!(adc.read_chan_with_average(1, 1000), Ok(4095));
    assert_eq!(bus.log()[1], Rec::Read(0x10, 512));
}

#[test]
fn adc_read_of_no_samples_is_zero() {
    let bus = MockBus::new();
    let mut adc = Adc::new(bus.clone(), 0x10);
    assert_eq!(adc.read_chan_with_average(1, 0), Ok(0));
    assert_eq!(bus.log()[1], Rec::Read(0x10, 0));
}

#[test]
fn adc_read_stops_when_channel_select_fails() {
    let bus = MockBus::new();
    bus.fail_at(0x10);
    let mut adc = Adc::new(bus.clone(), 0x10);
    assert_eq!(adc.read_chan_with_average(1, 4), Err(Fault));
    assert_eq!(bus.log().len(), 1);
}

#[test]
fn frx_adc_init_configures_two_analog_channels() {
    let bus = MockBus::new();
    let mut adc = FrxAdc::new(bus.clone());
    adc.init().unwrap();
    assert_eq!(
        bus.log(),
        vec![
            Rec::Write(0x10, vec![0x18, 0x01, 0x01]),
            Rec::Write(0x10, vec![0x18, 0x00, 0x01]),
            Rec::Write(0x10, vec![0x20, 0x05, 0x01]),
            Rec::Write(0x10, vec![0x20, 0x05, 0x02]),
        ]
    );
}

#[test]
fn ftx_adc_init_and_lna_enable() {
    let bus = MockBus::new();
    let mut adc = FtxAdc::new(bus.clone());
    adc.init().unwrap();
    let log = bus.log();
    assert_eq!(log.len(), 2 + 7 + 3);
    assert_eq!(log[8], Rec::Write(0x10, vec![0x18, 0x05, 0x40]));
    assert_eq!(log[9], Rec::Write(0x10, vec![0x18, 0x07, 0x40]));
    assert_eq!(log[10], Rec::Write(0x10, vec![0x18, 0x09, 0x40]));
    assert_eq!(log[11], Rec::Write(0x10, vec![0x20, 0x05, 0x80]));
    adc.enable_lna(true).unwrap();
    assert_eq!(bus.log()[12], Rec::Write(0x10, vec![0x18, 0x0B, 0x40]));
}

#[test]
fn ftx_adc_inner_reads_a_channel() {
    let bus = MockBus::new();
    bus.reply(&[0x80, 0x00]);
    let mut adc = FtxAdc::new(bus.clone());
    assert_eq!(adc.inner_mut().read_chan_with_average(4, 1), Ok(2048));
}

// ---- Attenuator

#[test]
fn attenuator_init_configures_outputs_then_zero() {
    let bus = MockBus::new();
    let mut att = Attenuator::new(bus.clone(), false);
    att.init().unwrap();
    assert_eq!(bus.log(), vec![Rec::Write(0x20, vec![0x03, 0x00]), Rec::Write(0x20, vec![0x01, 0x80])]);
}

#[test]
fn attenuator_address_select() {
    let bus = MockBus::new();
    let mut att = Attenuator::new(bus.clone(), true);
    att.set_raw(5).unwrap();
    assert_eq!(bus.log(), vec![Rec::Write(0x21, vec![0x01, 0x85])]);
}

#[test]
fn attenuator_set_forces_latch_bit() {
    let bus = MockBus::new();
    let mut att = Attenuator::new(bus.clone(), false);
    att.set(Attenuation::new(61).unwrap()).unwrap();
    assert_eq!(bus.log(), vec![Rec::Write(0x20, vec![0x01, 0xBD])]);
}

#[test]
fn attenuator_get_masks_latch_bit() {
    let bus = MockBus::new();
    bus.reply(&[0xFF]);
    let mut att = Attenuator::new(bus.clone(), false);
    assert_eq!(att.get().unwrap().step(), 127);
    assert_eq!(bus.log(), vec![Rec::WriteRead(0x20, vec![0x01], 1)]);
}

#[test]
fn attenuator_set_get_round_trip_every_step() {
    let mut att = Attenuator::new(ExpanderBus { port: 0 }, false);
    for step in 0..128u8 {
        att.set(Attenuation::new(step).unwrap()).unwrap();
        assert_eq!(att.get().unwrap().step(), step);
    }
}

#[test]
fn attenuator_init_stops_at_failure() {
    let bus = MockBus::new();
    bus.fail_at(0x20);
    let mut att = Attenuator::new(bus.clone(), false);
    assert!(att.init().is_err());
    assert_eq!(bus.log().len(), 1);
}

// ---- Digipot

#[test]
fn digipot_set_raw_and_get_raw() {
    let bus = MockBus::new();
    bus.reply(&[0x99]);
    let mut pot = Digipot::new(bus.clone(), true);
    pot.set_raw(0x7F).unwrap();
    assert_eq!(pot.get_raw().unwrap(), 0x99);
    assert_eq!(bus.log(), vec![Rec::Write(0x2D, vec![0x00, 0x7F]), Rec::Read(0x2D, 1)]);
}

#[test]
fn digipot_bus_error_is_tagged() {
    let bus = MockBus::new();
    bus.fail_at(0x2C);
    let mut pot = Digipot::new(bus.clone(), false);
    assert!(matches!(pot.set_raw(1), Err(DigipotError::I2c(Fault))));
}

// ---- Temperature sensor

#[test]
fn temp_uid_assembles_three_words() {
    let bus = MockBus::new();
    bus.reply(&[0x12, 0x34]);
    bus.reply(&[0x56, 0x78]);
    bus.reply(&[0x9A, 0xBC]);
    let mut t = TemperataureSensor::new(bus.clone(), 0x48);
    assert_eq!(t.uid().unwrap(), 0x1234_5678_9ABC);
    assert_eq!(
        bus.log(),
        vec![
            Rec::WriteRead(0x48, vec![0x05], 2),
            Rec::WriteRead(0x48, vec![0x06], 2),
            Rec::WriteRead(0x48, vec![0x08], 2),
        ]
    );
}

#[test]
fn temp_raw_reads_signed_register() {
    let bus = MockBus::new();
    bus.reply(&[0x01, 0x90]);
    bus.reply(&[0xFF, 0x38]);
    let mut t = TemperataureSensor::new(bus.clone(), 0x48);
    assert_eq!(t.temp_raw().unwrap(), 400);
    assert_eq!(t.temp_raw().unwrap(), -200);
    assert_eq!(bus.log()[0], Rec::WriteRead(0x48, vec![0x00], 2));
}

#[test]
fn temp_init_resets_then_read_modify_writes() {
    let bus = MockBus::new();
    // Each read returns what the previous write left, with the alert flag set to show
    // that untouched fields are kept; the first read has shutdown mode and cycle code 4.
    bus.reply(&[0x86, 0x20]);
    bus.reply(&[0x82, 0x20]);
    bus.reply(&[0x80, 0x20]);
    let mut t = TemperataureSensor::new(bus.clone(), 0x48);
    t.init().unwrap();
    assert_eq!(
        bus.log(),
        vec![
            config_write([0x00, 0x22]),
            config_read(),
            config_write([0x82, 0x20]),
            config_read(),
            config_write([0x80, 0x20]),
            config_read(),
            config_write([0x80, 0x60]),
        ]
    );
}

#[test]
fn temp_init_rejects_unused_mode_code() {
    let bus = MockBus::new();
    bus.reply(&[0x08, 0x20]);
    let mut t = TemperataureSensor::new(bus.clone(), 0x48);
    assert!(matches!(t.init(), Err(TempError::InvalidConfiguration)));
    assert_eq!(bus.log().len(), 2);
}

#[test]
fn temp_bus_error_is_tagged() {
    let bus = MockBus::new();
    bus.fail_at(0x48);
    let mut t = TemperataureSensor::new(bus.clone(), 0x48);
    assert!(matches!(t.uid(), Err(TempError::I2c(Fault))));
    assert_eq!(bus.log().len(), 1);
}

// ---- Boards

#[test]
fn frx_init_runs_all_peripherals_in_order() {
    let bus = MockBus::new();
    for _ in 0..3 {
        bus.reply(&[0x02, 0x20]);
    }
    let mut frx = Frx::new(bus.clone(), bus.clone(), bus.clone());
    frx.init().unwrap();
    let addrs: Vec<u8> = bus
        .log()
        .iter()
        .map(|r| match r {
            Rec::Read(a, _) | Rec::Write(a, _) | Rec::WriteRead(a, _, _) | Rec::Group(a, _) => *a,
        })
        .collect();
    assert_eq!(addrs, vec![0x20, 0x20, 0x10, 0x10, 0x10, 0x10, 0x48, 0x48, 0x48, 0x48, 0x48, 0x48, 0x48]);
}

#[test]
fn frx_init_failure_in_adc_is_tagged_and_stops() {
    let bus = MockBus::new();
    bus.fail_at(0x10);
    let mut frx = Frx::new(bus.clone(), bus.clone(), bus.clone());
    assert!(matches!(frx.init(), Err(FrxError::Adc(Fault))));
    let log = bus.log();
    assert_eq!(log.len(), 3);
    assert_eq!(log[2], Rec::Write(0x10, vec![0x18, 0x01, 0x01]));
}

#[test]
fn frx_init_failure_in_attenuator_is_tagged() {
    let bus = MockBus::new();
    bus.fail_at(0x20);
    let mut frx = Frx::new(bus.clone(), bus.clone(), bus.clone());
    assert!(matches!(frx.init(), Err(FrxError::Atten(_))));
    assert_eq!(bus.log().len(), 1);
}

#[test]
fn ftx_init_failure_in_adc_is_tagged_and_stops() {
    let bus = MockBus::new();
    bus.fail_at(0x10);
    let mut ftx = Ftx::new(bus.clone(), bus.clone(), bus.clone(), bus.clone());
    assert!(matches!(ftx.init(), Err(FtxError::Adc(Fault))));
    assert_eq!(bus.log().len(), 3);
}

#[test]
fn ftx_init_failure_in_temp_is_tagged() {
    let bus = MockBus::new();
    bus.fail_at(0x48);
    let mut ftx = Ftx::new(bus.clone(), bus.clone(), bus.clone(), bus.clone());
    assert!(matches!(ftx.init(), Err(FtxError::Temp(TempError::I2c(Fault)))));
    assert_eq!(bus.log().len(), 2 + 12 + 1);
}

#[test]
fn ftx_init_leaves_digipot_alone() {
    let bus = MockBus::new();
    for _ in 0..3 {
        bus.reply(&[0x02, 0x20]);
    }
    let mut ftx = Ftx::new(bus.clone(), bus.clone(), bus.clone(), bus.clone());
    ftx.init().unwrap();
    assert!(bus.log().iter().all(|r| !matches!(r, Rec::Write(0x2C, _) | Rec::Read(0x2C, _))));
    ftx.digipot.set_raw(10).unwrap();
    assert_eq!(bus.log().last(), Some(&Rec::Write(0x2C, vec![0x00, 0x0A])));
}

#[test]
fn uid_of_words_joins_most_significant_first() {
    assert_eq!(uid_of_words(0x1234, 0x5678, 0x9ABC), 0x1234_5678_9ABC);
    assert_eq!(uid_of_words(0, 0, 1), 1);
    assert_eq!(uid_of_words(0xFFFF, 0, 0), 0xFFFF_0000_0000);
}

#[test]
fn temp_uid_stops_at_failed_second_read() {
    let bus = MockBus::new();
    bus.reply(&[0x12, 0x34]);
    bus.fail_after(1);
    let mut t = TemperataureSensor::new(bus.clone(), 0x48);
    assert!(matches!(t.uid(), Err(TempError::I2c(Fault))));
    assert_eq!(bus.log().len(), 2);
}

#[test]
fn frx_adc_init_stops_after_failed_reset() {
    let bus = MockBus::new();
    bus.fail_after(0);
    let mut adc = FrxAdc::new(bus.clone());
    assert_eq!(adc.init(), Err(Fault));
    assert_eq!(bus.log(), vec![Rec::Write(0x10, vec![0x18, 0x01, 0x01])]);
}

#[test]
fn attenuator_init_stops_after_failed_configuration() {
    let bus = MockBus::new();
    bus.fail_after(0);
    let mut att = Attenuator::new(bus.clone(), false);
    assert!(att.init().is_err());
    assert_eq!(bus.log(), vec![Rec::Write(0x20, vec![0x03, 0x00])]);
}
