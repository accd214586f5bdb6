use std::collections::VecDeque;

use tmc2209_driver::packet::{build_read_packet, build_write_packet, calc_crc8};
use tmc2209_driver::registers::{GCONF_PDN_DISABLE, REG_GCONF, REG_IFCNT, REG_IHOLD_IRUN};
use tmc2209_driver::transfer::{Action, Event, WriteOp};
use tmc2209_driver::workflow::{check_counter, pack_current, set_current, UartInit};
use tmc2209_driver::{MotorConfig, TmcError};

/// A stand-in for the chip on the far side of the transport. It keeps the
/// general configuration and the write counter, answers read requests, and
/// records every byte it is sent.
struct Chip {
    gconf: u32,
    ifcnt: u32,
    ihold_irun: u32,
    counts_writes: bool,
    stalls_per_byte: usize,
    stalls_left: usize,
    fault_after_sent: Option<usize>,
    corrupt_reply: Option<usize>,
    answer_as_register: Option<u8>,
    sent: Vec<u8>,
    inbox: Vec<u8>,
    outbox: VecDeque<u8>,
    replies: usize,
}

impl Chip {
    fn new() -> Chip {
        Chip {
            gconf: 0x0000_0101,
            ifcnt: 0x11,
            ihold_irun: 0,
            counts_writes: true,
            stalls_per_byte: 0,
            stalls_left: 0,
            fault_after_sent: None,
            corrupt_reply: None,
            answer_as_register: None,
            sent: Vec::new(),
            inbox: Vec::new(),
            outbox: VecDeque::new(),
            replies: 0,
        }
    }

    fn stall(&mut self) -> bool {
        if self.stalls_left > 0 {
            self.stalls_left -= 1;
            true
        } else {
            self.stalls_left = self.stalls_per_byte;
            false
        }
    }

    fn register(&self, reg: u8) -> u32 {
        if reg == REG_GCONF {
            self.gconf
        } else if reg == REG_IFCNT {
            self.ifcnt
        } else if reg == REG_IHOLD_IRUN {
            self.ihold_irun
        } else {
            0
        }
    }

    fn digest(&mut self) {
        if self.inbox.len() == 4 && self.inbox[1] & 0x80 != 0 {
            let reg = self.inbox[1] & 0x7F;
            let value = self.register(reg);
            let echoed = self.answer_as_register.unwrap_or(reg);
            let mut reply = [
                self.inbox[0],
                echoed,
                value as u8,
                (value >> 8) as u8,
                (value >> 16) as u8,
                (value >> 24) as u8,
                0,
            ];
            reply[6] = calc_crc8(&reply[..6]);
            if self.corrupt_reply == Some(self.replies) {
                reply[3] ^= 0x04;
            }
            self.replies += 1;
            self.outbox.extend(reply);
            self.inbox.clear();
        } else if self.inbox.len() == 8 {
            let reg = self.inbox[1];
            let bytes = [self.inbox[2], self.inbox[3], self.inbox[4], self.inbox[5]];
            let value = u32::from_le_bytes(bytes);
            if self.counts_writes {
                if reg == REG_GCONF {
                    self.gconf = value;
                } else if reg == REG_IHOLD_IRUN {
                    self.ihold_irun = value;
                }
                self.ifcnt = (self.ifcnt + 1) & 0xFF;
            }
            self.inbox.clear();
        }
    }

    fn answer<T>(&mut self, action: &Action<T>) -> Event {
        match action {
            Action::Send(byte) => {
                if self.fault_after_sent == Some(self.sent.len()) {
                    return Event::Fault;
                }
                if self.stall() {
                    return Event::WouldBlock;
                }
                self.sent.push(*byte);
                self.inbox.push(*byte);
                self.digest();
                Event::Sent
            }
            Action::Receive => {
                if self.stall() {
                    return Event::WouldBlock;
                }
                match self.outbox.pop_front() {
                    Some(byte) => Event::Received(byte),
                    None => Event::Fault,
                }
            }
            Action::Done(_) => unreachable!(),
        }
    }
}

fn run_init(chip: &mut Chip, slave: u8) -> Result<(), TmcError> {
    let mut init = UartInit::new(slave);
    loop {
        let action = init.action();
        if let Action::Done(result) = action {
            return result;
        }
        init = init.step(chip.answer(&action));
    }
}

fn run_write(chip: &mut Chip, mut op: WriteOp) -> Result<(), TmcError> {
    loop {
        let action = op.action();
        if let Action::Done(result) = action {
            return result;
        }
        op = op.step(chip.answer(&action));
    }
}

/// Set the currents as a driver would: reject the parameters, or carry out
/// the write.
fn drive_set_current(
    chip: &mut Chip,
    slave: u8,
    irun: u8,
    ihold: u8,
    delay: u8,
) -> Result<(), TmcError> {
    match set_current(slave, irun, ihold, delay) {
        Ok(op) => run_write(chip, op),
        Err(e) => Err(e),
    }
}

#[test]
fn default_motor_config() {
    let config = MotorConfig::default();
    assert_eq!(config.run_current, 16);
    assert_eq!(config.hold_current, 8);
    assert_eq!(config.hold_delay, 8);
}

#[test]
fn pack_current_places_the_fields() {
    assert_eq!(pack_current(0, 0, 0), Ok(0));
    assert_eq!(pack_current(0, 1, 0), Ok(0x0000_0001));
    assert_eq!(pack_current(1, 0, 0), Ok(0x0000_0100));
    assert_eq!(pack_current(0, 0, 1), Ok(0x0001_0000));
    assert_eq!(pack_current(16, 8, 8), Ok(0x0008_1008));
    assert_eq!(pack_current(31, 31, 15), Ok(0x000F_1F1F));
}

#[test]
fn pack_current_fields_read_back() {
    for irun in 0..32u8 {
        for ihold in 0..32u8 {
            for delay in 0..16u8 {
                let value = pack_current(irun, ihold, delay).unwrap();
                assert_eq!(value & 0x1F, ihold as u32);
                assert_eq!((value >> 8) & 0x1F, irun as u32);
                assert_eq!((value >> 16) & 0x0F, delay as u32);
                assert_eq!(value & 0xFFF0_E0E0, 0);
            }
        }
    }
}

#[test]
fn pack_current_rejects_a_field_one_past_its_range() {
    assert_eq!(pack_current(32, 0, 0), Err(TmcError::VerificationError));
    assert_eq!(pack_current(0, 32, 0), Err(TmcError::VerificationError));
    assert_eq!(pack_current(0, 0, 16), Err(TmcError::VerificationError));
    assert_eq!(pack_current(31, 31, 16), Err(TmcError::VerificationError));
    assert_eq!(pack_current(255, 255, 255), Err(TmcError::VerificationError));
}

#[test]
fn set_current_out_of_range_sends_nothing() {
    for (irun, ihold, delay) in [(32, 0, 0), (0, 32, 0), (0, 0, 16), (200, 31, 15), (31, 31, 255)] {
        let mut chip = Chip::new();
        assert_eq!(
            drive_set_current(&mut chip, 0, irun, ihold, delay),
            Err(TmcError::VerificationError)
        );
        assert!(chip.sent.is_empty());
        assert_eq!(chip.ihold_irun, 0);
        assert_eq!(chip.ifcnt, 0x11);
    }
}

#[test]
fn set_current_out_of_range_is_a_range_failure() {
    assert!(matches!(set_current(3, 32, 0, 0), Err(TmcError::VerificationError)));
    assert!(matches!(set_current(3, 0, 32, 0), Err(TmcError::VerificationError)));
    assert!(matches!(set_current(3, 0, 0, 16), Err(TmcError::VerificationError)));
}

#[test]
fn set_current_writes_the_packed_value() {
    let mut chip = Chip::new();
    assert_eq!(drive_set_current(&mut chip, 1, 16, 8, 8), Ok(()));
    assert_eq!(chip.sent, build_write_packet(1, REG_IHOLD_IRUN, 0x0008_1008).to_vec());
    assert_eq!(chip.sent, vec![0x51, 0x10, 0x08, 0x10, 0x08, 0x00, 0x45, 0x00]);
    assert_eq!(chip.ihold_irun, 0x0008_1008);
}

#[test]
fn set_current_accepts_the_largest_fields() {
    let mut chip = Chip::new();
    assert_eq!(drive_set_current(&mut chip, 0, 31, 31, 15), Ok(()));
    assert_eq!(chip.sent, vec![0x50, 0x10, 0x1F, 0x1F, 0x0F, 0x00, 0xFD, 0x00]);
}

#[test]
fn set_current_starts_with_the_address_byte() {
    let op = set_current(4, 1, 2, 3).unwrap();
    assert_eq!(op.action(), Action::Send(0x54));
}

#[test]
fn set_current_reports_a_transport_fault() {
    let mut chip = Chip::new();
    chip.fault_after_sent = Some(3);
    assert_eq!(drive_set_current(&mut chip, 0, 1, 1, 1), Err(TmcError::SerialError));
    assert_eq!(chip.sent.len(), 3);
}

#[test]
fn counter_that_moved_means_a_live_link() {
    assert_eq!(check_counter(0, 1), Ok(()));
    assert_eq!(check_counter(255, 0), Ok(()));
    assert_eq!(check_counter(7, 3), Ok(()));
}

#[test]
fn counter_that_stood_still_means_a_dead_link() {
    assert_eq!(check_counter(0, 0), Err(TmcError::LivenessError));
    assert_eq!(check_counter(0x11, 0x11), Err(TmcError::LivenessError));
    assert_eq!(check_counter(u32::MAX, u32::MAX), Err(TmcError::LivenessError));
}

#[test]
fn init_succeeds_when_the_counter_moves() {
    let mut chip = Chip::new();
    assert_eq!(run_init(&mut chip, 2), Ok(()));
    assert_eq!(chip.gconf, 0x0000_0101 | GCONF_PDN_DISABLE);
    assert_eq!(chip.ifcnt, 0x12);
    let mut expected = Vec::new();
    expected.extend(build_read_packet(2, REG_IFCNT));
    expected.extend(build_read_packet(2, REG_GCONF));
    expected.extend(build_write_packet(2, REG_GCONF, 0x0000_0141));
    expected.extend(build_read_packet(2, REG_IFCNT));
    assert_eq!(chip.sent, expected);
}

#[test]
fn init_sends_these_bytes() {
    let mut chip = Chip::new();
    chip.gconf = 0x01;
    assert_eq!(run_init(&mut chip, 2), Ok(()));
    assert_eq!(
        chip.sent,
        vec![
            0x52, 0x82, 0xD6, 0x00, // read the count
            0x52, 0x80, 0x6A, 0x00, // read the configuration
            0x52, 0x00, 0x41, 0x00, 0x00, 0x00, 0x2F, 0x00, // write it back
            0x52, 0x82, 0xD6, 0x00, // read the count again
        ]
    );
}

#[test]
fn init_keeps_a_bit_that_is_already_set() {
    let mut chip = Chip::new();
    chip.gconf = 0x40;
    assert_eq!(run_init(&mut chip, 2), Ok(()));
    assert_eq!(chip.gconf, 0x40);
    assert_eq!(&chip.sent[8..16], &[0x52, 0x00, 0x40, 0x00, 0x00, 0x00, 0xA0, 0x00]);
}

#[test]
fn init_fails_when_the_counter_stands_still() {
    let mut chip = Chip::new();
    chip.counts_writes = false;
    assert_eq!(run_init(&mut chip, 2), Err(TmcError::LivenessError));
    // Every exchange went through and every reply was sound.
    assert_eq!(chip.sent.len(), 4 + 4 + 8 + 4);
    assert_eq!(chip.replies, 3);
    assert!(chip.outbox.is_empty());
}

#[test]
fn init_survives_a_stalling_transport() {
    let mut chip = Chip::new();
    chip.stalls_per_byte = 2;
    chip.stalls_left = 1;
    assert_eq!(run_init(&mut chip, 0), Ok(()));
    assert_eq!(chip.sent.len(), 20);
    let mut chip = Chip::new();
    chip.stalls_per_byte = 2;
    chip.counts_writes = false;
    assert_eq!(run_init(&mut chip, 0), Err(TmcError::LivenessError));
}

#[test]
fn init_stops_at_a_transport_fault() {
    for sent_before in 0..20 {
        let mut chip = Chip::new();
        chip.fault_after_sent = Some(sent_before);
        assert_eq!(run_init(&mut chip, 2), Err(TmcError::SerialError));
        assert_eq!(chip.sent.len(), sent_before);
    }
}

#[test]
fn init_stops_at_a_corrupted_reply() {
    for (reply, sent) in [(0, 4), (1, 8), (2, 20)] {
        let mut chip = Chip::new();
        chip.corrupt_reply = Some(reply);
        assert_eq!(run_init(&mut chip, 2), Err(TmcError::CrcError));
        assert_eq!(chip.sent.len(), sent);
    }
}

#[test]
fn init_stops_at_a_reply_for_another_register() {
    let mut chip = Chip::new();
    chip.answer_as_register = Some(0x6F);
    assert_eq!(run_init(&mut chip, 2), Err(TmcError::VerificationError));
    assert_eq!(chip.sent.len(), 4);
}

#[test]
fn init_stays_finished() {
    let mut chip = Chip::new();
    let mut init = UartInit::new(1);
    loop {
        let action = init.action();
        if let Action::Done(_) = action {
            break;
        }
        init = init.step(chip.answer(&action));
    }
    for event in [Event::Sent, Event::WouldBlock, Event::Received(9), Event::Fault] {
        init = init.step(event);
        assert_eq!(init.action(), Action::Done(Ok(())));
    }
}

#[test]
fn dead_link_is_told_apart_from_every_other_failure() {
    let dead = check_counter(5, 5);
    assert_ne!(dead, Err(TmcError::SerialError));
    assert_ne!(dead, Err(TmcError::CrcError));
    assert_ne!(dead, Err(TmcError::VerificationError));
    assert_ne!(dead, Err(TmcError::PinError));
    assert_ne!(dead, Ok(()));

    let mut chip = Chip::new();
    chip.counts_writes = false;
    let stood_still = run_init(&mut chip, 2);
    for sent_before in 0..20 {
        let mut chip = Chip::new();
        chip.counts_writes = false;
        chip.fault_after_sent = Some(sent_before);
        assert_ne!(run_init(&mut chip, 2), stood_still);
    }
    for reply in 0..3 {
        let mut chip = Chip::new();
        chip.counts_writes = false;
        chip.corrupt_reply = Some(reply);
        assert_ne!(run_init(&mut chip, 2), stood_still);
    }
    let mut chip = Chip::new();
    chip.counts_writes = false;
    chip.answer_as_register = Some(0x6F);
    assert_ne!(run_init(&mut chip, 2), stood_still);
}

#[test]
fn transport_fault_is_never_a_dead_link() {
    let faulted = WriteOp::new(0, 0, 0).step(Event::Fault);
    assert_eq!(faulted.action(), Action::Done(Err(TmcError::SerialError)));
    assert_ne!(faulted.action(), Action::Done(check_counter(7, 7)));
    for sent_before in 0..20 {
        let mut chip = Chip::new();
        chip.counts_writes = false;
        chip.fault_after_sent = Some(sent_before);
        assert_eq!(run_init(&mut chip, 2), Err(TmcError::SerialError));
    }
}

#[test]
fn failed_last_read_is_no_dead_link() {
    // The counter stands still, but the last reply is corrupted: the
    // corruption is what is reported.
    let mut chip = Chip::new();
    chip.counts_writes = false;
    chip.corrupt_reply = Some(2);
    assert_eq!(run_init(&mut chip, 2), Err(TmcError::CrcError));
    // The same with a fault while the last request goes out.
    let mut chip = Chip::new();
    chip.counts_writes = false;
    chip.fault_after_sent = Some(18);
    assert_eq!(run_init(&mut chip, 2), Err(TmcError::SerialError));
}
