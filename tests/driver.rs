use std::cell::RefCell;
use std::rc::Rc;

use stusb4500::pdo::{BatteryPdo, Pdo, VariablePdo};
use stusb4500::registers::Alert;
use stusb4500::{Address, Error, I2cBus, PdoChannel, STUSB4500};

#[derive(Debug, PartialEq)]
struct Fault;

/// A simulated controller: a register file, the NVM request handshake and five NVM sectors.
struct ChipState {
    regs: [u8; 256],
    ptr: u8,
    nvm: [[u8; 8]; 5],
    plr: [u8; 8],
    ser: u8,
    writes: Vec<Vec<u8>>,
    reads: Vec<(u8, usize)>,
    addresses: Vec<u8>,
    fail_write: Option<usize>,
    fail_buffer_write: Option<usize>,
    buffer_writes: usize,
    stuck_request: bool,
    busy_polls: usize,
}

#[derive(Clone)]
struct Chip(Rc<RefCell<ChipState>>);

impl Chip {
    fn new() -> Chip {
        Chip(Rc::new(RefCell::new(ChipState {
            regs: [0; 256],
            ptr: 0,
            nvm: [[0xAA; 8]; 5],
            plr: [0; 8],
            ser: 0,
            writes: Vec::new(),
            reads: Vec::new(),
            addresses: Vec::new(),
            fail_write: None,
            fail_buffer_write: None,
            buffer_writes: 0,
            stuck_request: false,
            busy_polls: 0,
        })))
    }

    fn writes(&self) -> Vec<Vec<u8>> {
        self.0.borrow().writes.clone()
    }

    fn clear_log(&self) {
        let mut s = self.0.borrow_mut();
        s.writes.clear();
        s.reads.clear();
    }
}

impl I2cBus for Chip {
    type Error = Fault;

    fn write(&mut self, address: u8, bytes: &[u8]) -> Result<(), Fault> {
        let mut s = self.0.borrow_mut();
        s.addresses.push(address);
        let index = s.writes.len();
        s.writes.push(bytes.to_vec());
        if s.fail_write == Some(index) {
            return Err(Fault);
        }
        if bytes[0] == 0x53 && bytes.len() == 9 {
            let n = s.buffer_writes;
            s.buffer_writes += 1;
            if s.fail_buffer_write == Some(n) {
                return Err(Fault);
            }
        }
        s.ptr = bytes[0];
        for (i, b) in bytes[1..].iter().enumerate() {
            let at = (bytes[0] as usize + i) & 0xFF;
            s.regs[at] = *b;
        }
        if bytes.len() == 2 && bytes[0] == 0x96 && bytes[1] & 0x10 != 0 {
            let sector = (bytes[1] & 0x07) as usize;
            let ctrl1 = s.regs[0x97];
            match ctrl1 & 0x07 {
                0x00 => {
                    let data = s.nvm[sector];
                    s.regs[0x53..0x5B].copy_from_slice(&data);
                }
                0x01 => {
                    let mut data = [0u8; 8];
                    data.copy_from_slice(&s.regs[0x53..0x5B]);
                    s.plr = data;
                }
                0x02 => s.ser = ctrl1 & 0xF8,
                0x05 => {
                    for k in 0..5 {
                        if s.ser & (0x08 << k) != 0 {
                            s.nvm[k] = [0; 8];
                        }
                    }
                }
                0x06 => {
                    let data = s.plr;
                    s.nvm[sector] = data;
                }
                _ => {}
            }
            if !s.stuck_request {
                s.busy_polls = 2;
            }
        }
        Ok(())
    }

    fn read(&mut self, _address: u8, buffer: &mut [u8]) -> Result<(), Fault> {
        let mut s = self.0.borrow_mut();
        let ptr = s.ptr;
        s.reads.push((ptr, buffer.len()));
        if ptr == 0x96 && s.regs[0x96] & 0x10 != 0 && !s.stuck_request {
            if s.busy_polls == 0 {
                s.regs[0x96] &= !0x10;
            } else {
                s.busy_polls -= 1;
            }
        }
        for (i, b) in buffer.iter_mut().enumerate() {
            *b = s.regs[(ptr as usize + i) & 0xFF];
        }
        Ok(())
    }
}

fn driver() -> (Chip, STUSB4500<Chip>) {
    let chip = Chip::new();
    let drv = STUSB4500::new(chip.clone(), Address::Default);
    (chip, drv)
}

fn is_request(w: &[u8]) -> bool {
    w.len() == 2 && w[0] == 0x96 && w[1] & 0x10 != 0
}

/// The writes that carry data, without the address-only writes that select a register.
fn commands(chip: &Chip) -> Vec<Vec<u8>> {
    chip.writes().into_iter().filter(|w| w.len() >= 2).collect()
}

#[test]
fn set_num_pdo_range() {
    let (chip, mut drv) = driver();
    assert!(matches!(drv.set_num_pdo(0), Err(Error::OutaRangePdo)));
    assert!(matches!(drv.set_num_pdo(4), Err(Error::OutaRangePdo)));
    assert!(matches!(drv.set_num_pdo(255), Err(Error::OutaRangePdo)));
    assert!(chip.writes().is_empty());
    for n in 1..=3u8 {
        chip.clear_log();
        assert!(drv.set_num_pdo(n).is_ok());
        assert_eq!(chip.writes(), vec![vec![0x70, n]]);
    }
}

#[test]
fn set_pdo_refuses_variable_and_battery() {
    let (chip, mut drv) = driver();
    let v = Pdo::Variable(VariablePdo::default());
    let b = Pdo::Battery(BatteryPdo::default());
    assert!(matches!(drv.set_pdo(PdoChannel::PDO1, &v), Err(Error::InvalidPdo)));
    assert!(matches!(drv.set_pdo(PdoChannel::PDO3, &b), Err(Error::InvalidPdo)));
    assert!(chip.writes().is_empty());
}

#[test]
fn set_pdo_writes_little_endian_word() {
    let (chip, mut drv) = driver();
    let mut p = Pdo::new_fixed(100, 300);
    p.dual_role_power(true);
    drv.set_pdo(PdoChannel::PDO2, &p).unwrap();
    assert_eq!(chip.writes(), vec![vec![0x89, 0x2C, 0x91, 0x01, 0x20]]);
    let back = drv.get_pdo(PdoChannel::PDO2).unwrap();
    assert_eq!(back.bits(), 0x2001_912C);
}

#[test]
fn get_pdo_reserved_tag_is_invalid() {
    let (chip, mut drv) = driver();
    chip.0.borrow_mut().regs[0x85..0x89].copy_from_slice(&[0x00, 0x00, 0x00, 0xC0]);
    assert!(matches!(drv.get_pdo(PdoChannel::PDO1), Err(Error::InvalidPdo)));
    chip.0.borrow_mut().regs[0x85..0x89].copy_from_slice(&[0x34, 0x12, 0x00, 0x80]);
    let p = drv.get_pdo(PdoChannel::PDO1).unwrap();
    assert!(matches!(p, Pdo::Battery(_)));
    assert_eq!(p.bits(), 0x8000_1234);
}

#[test]
fn current_rdo_is_read_little_endian() {
    let (chip, mut drv) = driver();
    let w: u32 = (1 << 28) | (90 << 10) | 150;
    chip.0.borrow_mut().regs[0x91..0x95].copy_from_slice(&w.to_le_bytes());
    let r = drv.get_current_rdo().unwrap();
    assert_eq!(r.bits(), w);
    assert_eq!(r.position(), 1);
    assert_eq!(r.operating_current(), 90);
    assert_eq!(r.max_operating_current(), 150);
    assert_eq!(chip.0.borrow().reads, vec![(0x91, 4)]);
}

#[test]
fn status_reads_drop_undefined_bits() {
    let (chip, mut drv) = driver();
    chip.0.borrow_mut().regs[0x0B] = 0xFF;
    chip.0.borrow_mut().regs[0x0E] = 0xFF;
    chip.0.borrow_mut().regs[0x16] = 0x07;
    assert_eq!(drv.get_alerts().unwrap().bits(), 0x7A);
    assert!(drv.get_alerts().unwrap().contains(Alert::CCHWFaultStatus));
    assert_eq!(drv.get_portstatus1().unwrap().bits(), 0x6D);
    assert_eq!(drv.get_prt_status().unwrap().bits(), 0x06);
    assert_eq!(drv.get_portstatus0().unwrap().bits(), 0x00);
    assert_eq!(drv.get_typec_monitoring_status0().unwrap().bits(), 0x00);
    assert_eq!(drv.get_typec_monitoring_status1().unwrap().bits(), 0x00);
}

#[test]
fn clear_interrupts_reads_ten_bytes() {
    let (chip, mut drv) = driver();
    drv.clear_interrupts().unwrap();
    assert_eq!(chip.writes(), vec![vec![0x0D]]);
    assert_eq!(chip.0.borrow().reads, vec![(0x0D, 10)]);
}

#[test]
fn alerts_mask_and_soft_reset() {
    let (chip, mut drv) = driver();
    drv.set_alerts_mask(stusb4500::registers::AlertMask::from_bits_truncate(0x62)).unwrap();
    drv.soft_reset().unwrap();
    assert_eq!(chip.writes(), vec![vec![0x0C, 0x62], vec![0x51, 0x0D], vec![0x1A, 0x26]]);
}

#[test]
fn soft_reset_stops_at_fault() {
    let (chip, mut drv) = driver();
    chip.0.borrow_mut().fail_write = Some(0);
    assert!(matches!(drv.soft_reset(), Err(Error::I2CError(Fault))));
    assert_eq!(chip.writes(), vec![vec![0x51, 0x0D]]);
}

#[test]
fn bus_fault_on_read_is_reported() {
    let (chip, mut drv) = driver();
    chip.0.borrow_mut().fail_write = Some(0);
    assert!(matches!(drv.get_alerts(), Err(Error::I2CError(Fault))));
    assert!(chip.0.borrow().reads.is_empty());
}

#[test]
fn strap_address_is_used_on_the_bus() {
    let chip = Chip::new();
    let mut drv = STUSB4500::new(chip.clone(), Address::Strap(true, true));
    drv.set_num_pdo(2).unwrap();
    assert_eq!(chip.0.borrow().addresses, vec![0x2B]);
}

#[test]
fn scenario_unlock_then_lock() {
    let (chip, mut drv) = driver();
    let nvm = drv.unlock_nvm().unwrap();
    nvm.lock().unwrap();
    assert_eq!(
        chip.writes(),
        vec![
            vec![0x95, 0x47],
            vec![0x96, 0x00],
            vec![0x96, 0xC0],
            vec![0x96, 0x40],
            vec![0x97, 0x00],
            vec![0x95, 0x00],
        ]
    );
    assert!(chip.0.borrow().reads.is_empty());
}

#[test]
fn unlock_stops_at_fault() {
    let (chip, mut drv) = driver();
    chip.0.borrow_mut().fail_write = Some(1);
    assert!(matches!(drv.unlock_nvm(), Err(Error::I2CError(Fault))));
    assert_eq!(chip.writes(), vec![vec![0x95, 0x47], vec![0x96, 0x00]]);
}

fn expected_write_sectors(block: &[[u8; 8]; 5]) -> Vec<Vec<u8>> {
    let mut v = vec![vec![0x97, 0xFA], vec![0x96, 0xD0], vec![0x97, 0x05], vec![0x96, 0xD0]];
    for (i, s) in block.iter().enumerate() {
        let mut buf = vec![0x53];
        buf.extend_from_slice(s);
        v.push(buf);
        v.push(vec![0x97, 0x01]);
        v.push(vec![0x96, 0xD0]);
        v.push(vec![0x97, 0x06]);
        v.push(vec![0x96, 0xD0 | i as u8]);
    }
    v
}

#[test]
fn scenario_write_all_zero_sectors() {
    let (chip, mut drv) = driver();
    let block = [[0u8; 8]; 5];
    {
        let mut nvm = drv.unlock_nvm().unwrap();
        chip.clear_log();
        nvm.write_sectors(block).unwrap();
        let cmds = commands(&chip);
        assert_eq!(cmds, expected_write_sectors(&block));
        assert_eq!(cmds.iter().filter(|w| is_request(w)).count(), 12);
        assert_eq!(cmds.iter().filter(|w| w[0] == 0x53).count(), 5);
        let sectors: Vec<u8> = cmds
            .iter()
            .enumerate()
            .filter(|(i, w)| is_request(w) && *i > 0 && cmds[*i - 1] == vec![0x97, 0x06])
            .map(|(_, w)| w[1] & 0x07)
            .collect();
        assert_eq!(sectors, vec![0, 1, 2, 3, 4]);
        nvm.lock().unwrap();
    }
    assert_eq!(chip.0.borrow().nvm, block);
}

#[test]
fn scenario_fault_on_third_sector() {
    let (chip, mut drv) = driver();
    let block = [[1u8; 8], [2; 8], [3; 8], [4; 8], [5; 8]];
    chip.0.borrow_mut().fail_buffer_write = Some(2);
    let mut nvm = drv.unlock_nvm().unwrap();
    chip.clear_log();
    let r = nvm.write_sectors(block);
    assert!(matches!(r, Err(Error::I2CError(Fault))));
    let cmds = commands(&chip);
    let expected = expected_write_sectors(&block);
    assert_eq!(cmds.len(), 4 + 2 * 5 + 1);
    assert_eq!(cmds[..], expected[..cmds.len()]);
    assert_eq!(*cmds.last().unwrap(), vec![0x53, 3, 3, 3, 3, 3, 3, 3, 3]);
    assert_eq!(chip.writes().last().unwrap(), cmds.last().unwrap());
    let nvm_state = chip.0.borrow().nvm;
    assert_eq!(nvm_state, [[1; 8], [2; 8], [0; 8], [0; 8], [0; 8]]);
}

#[test]
fn write_then_read_sectors() {
    let (chip, mut drv) = driver();
    let block = [[1, 2, 3, 4, 5, 6, 7, 8], [9; 8], [0x10; 8], [0xFE; 8], [0, 1, 0, 1, 0, 1, 0, 1]];
    let mut nvm = drv.unlock_nvm().unwrap();
    nvm.write_sectors(block).unwrap();
    assert_eq!(nvm.read_sectors().unwrap(), block);
    nvm.lock().unwrap();
    let reads = chip.0.borrow().reads.clone();
    assert_eq!(reads.iter().filter(|r| **r == (0x53, 8)).count(), 5);
}

#[test]
fn read_sectors_in_index_order() {
    let (chip, mut drv) = driver();
    chip.0.borrow_mut().nvm = [[10; 8], [11; 8], [12; 8], [13; 8], [14; 8]];
    let mut nvm = drv.unlock_nvm().unwrap();
    chip.clear_log();
    assert_eq!(nvm.read_sectors().unwrap(), [[10; 8], [11; 8], [12; 8], [13; 8], [14; 8]]);
    let cmds = commands(&chip);
    let mut expected = Vec::new();
    for i in 0..5u8 {
        expected.push(vec![0x97, 0x00]);
        expected.push(vec![0x96, 0xD0 | i]);
    }
    assert_eq!(cmds, expected);
}

#[test]
fn unacknowledged_request_times_out() {
    let (chip, mut drv) = driver();
    drv.set_nvm_poll_limit(3);
    chip.0.borrow_mut().stuck_request = true;
    let mut nvm = drv.unlock_nvm().unwrap();
    chip.clear_log();
    let r = nvm.write_sectors([[0; 8]; 5]);
    assert!(matches!(r, Err(Error::AcknowledgeTimeout)));
    assert_eq!(commands(&chip), vec![vec![0x97, 0xFA], vec![0x96, 0xD0]]);
    assert_eq!(chip.0.borrow().reads, vec![(0x96, 1); 3]);
}

#[test]
fn read_sectors_full_trace_with_polls() {
    let (chip, mut drv) = driver();
    let mut nvm = drv.unlock_nvm().unwrap();
    chip.clear_log();
    nvm.read_sectors().unwrap();
    let mut writes = Vec::new();
    let mut reads = Vec::new();
    for i in 0..5u8 {
        writes.push(vec![0x97, 0x00]);
        writes.push(vec![0x96, 0xD0 | i]);
        for _ in 0..3 {
            writes.push(vec![0x96]);
            reads.push((0x96, 1));
        }
        writes.push(vec![0x53]);
        reads.push((0x53, 8));
    }
    assert_eq!(chip.writes(), writes);
    assert_eq!(chip.0.borrow().reads, reads);
}
