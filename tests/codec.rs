use stusb4500::pdo::{BatteryPdo, FastSwapSupport, FixedPdo, Pdo, VariablePdo};
use stusb4500::rdo::Rdo;
use stusb4500::registers::{Alert, NvmCtrl1Opcode, PortStatus1, Register};
use stusb4500::Address;

fn fixed_fields(p: &Pdo) -> (u32, u32, [bool; 5], u32) {
    match p {
        Pdo::Fixed(f) => (
            f.voltage(),
            f.current(),
            [
                f.dual_role_power(),
                f.higher_capability(),
                f.unconstrained_power(),
                f.usb_communications_capable(),
                f.dual_role_data(),
            ],
            f.fast_role_swap(),
        ),
        _ => panic!("not a fixed PDO"),
    }
}

#[test]
fn fixed_round_trip_keeps_fields() {
    for &(v, c) in &[(0u16, 0u16), (100, 300), (1023, 1023), (1, 1022), (512, 7)] {
        let p = Pdo::new_fixed(v, c);
        let back = Pdo::from_bits(p.bits()).expect("fixed tag decodes");
        assert_eq!(fixed_fields(&back), (v as u32, c as u32, [false; 5], 0));
        assert_eq!(back.bits(), p.bits());
    }
}

#[test]
fn new_fixed_cuts_to_ten_bits() {
    let p = Pdo::new_fixed(1024 + 5, 2048 + 9);
    assert_eq!(p.bits(), (5 << 10) | 9);
}

#[test]
fn decode_by_tag() {
    assert!(matches!(Pdo::from_bits(0x0000_1234), Some(Pdo::Fixed(_))));
    assert!(matches!(Pdo::from_bits(0x4000_1234), Some(Pdo::Variable(_))));
    assert!(matches!(Pdo::from_bits(0x8000_1234), Some(Pdo::Battery(_))));
    assert!(Pdo::from_bits(0xC000_1234).is_none());
    assert!(Pdo::from_bits(0xFFFF_FFFF).is_none());
    assert_eq!(Pdo::from_bits(0x8000_1234).unwrap().bits(), 0x8000_1234);
}

#[test]
fn variable_and_battery_fields() {
    let w: u32 = 0x4000_0000 | (300 << 20) | (100 << 10) | 150;
    match Pdo::from_bits(w) {
        Some(Pdo::Variable(v)) => {
            assert_eq!((v.max_voltage(), v.min_voltage(), v.current()), (300, 100, 150));
        }
        _ => panic!("expected a variable PDO"),
    }
    let w: u32 = 0x8000_0000 | (400 << 20) | (60 << 10) | 40;
    match Pdo::from_bits(w) {
        Some(Pdo::Battery(b)) => {
            assert_eq!((b.max_voltage(), b.min_voltage(), b.power()), (400, 60, 40));
        }
        _ => panic!("expected a battery PDO"),
    }
    let mut v = VariablePdo::default();
    v.set_max_voltage(420);
    v.set_min_voltage(100);
    v.set_current(50);
    assert_eq!(v.bits(), 0x4000_0000 | (420 << 20) | (100 << 10) | 50);
    assert_eq!(BatteryPdo::default().bits(), 0x8000_0000);
}

#[test]
fn fixed_tag_stays_clear_under_flags() {
    let mut p = Pdo::new_fixed(1023, 1023);
    p.dual_role_power(true)
        .higher_capability(true)
        .unconstrained_power(true)
        .usb_communications_capable(true)
        .dual_role_data(true);
    assert_eq!(p.bits() >> 30, 0);
    assert_eq!(p.bits(), 0x3E0F_FFFF);
    assert_eq!(fixed_fields(&p), (1023, 1023, [true; 5], 0));
    p.dual_role_power(false).dual_role_data(false);
    assert_eq!(p.bits(), 0x1C0F_FFFF);
}

#[test]
fn setters_leave_other_variants_alone() {
    for &w in &[0x4123_4567u32, 0x8765_4321u32] {
        let mut p = Pdo::from_bits(w).unwrap();
        p.dual_role_power(true)
            .dual_role_data(true)
            .usb_communications_capable(true)
            .higher_capability(true)
            .unconstrained_power(true);
        assert_eq!(p.bits(), w);
    }
}

#[test]
fn scenario_fixed_5v_3a_dual_role_power() {
    let mut p = Pdo::new_fixed(100, 300);
    p.dual_role_power(true);
    let w = p.bits();
    assert_eq!(w >> 30, 0);
    assert_eq!((w >> 29) & 1, 1);
    assert_eq!((w >> 10) & 0x3FF, 100);
    assert_eq!(w & 0x3FF, 300);
    assert_eq!(w, 0x2001_912C);
}

#[test]
fn fixed_pdo_setters_and_fast_swap() {
    let mut f = FixedPdo::new(100, 300);
    assert_eq!(f.fixed(), 0);
    f.set_fast_role_swap(FastSwapSupport::_3A0_5V.into());
    assert_eq!(f.fast_role_swap(), 3);
    assert_eq!(f.bits(), (3 << 23) | (100 << 10) | 300);
    f.set_voltage(240);
    f.set_current(150);
    assert_eq!((f.voltage(), f.current(), f.reserved()), (240, 150, 0));
    let codes: Vec<u32> = vec![
        FastSwapSupport::NotSupported.into(),
        FastSwapSupport::DefaultUsb.into(),
        FastSwapSupport::_1A5_5V.into(),
        FastSwapSupport::_3A0_5V.into(),
    ];
    assert_eq!(codes, vec![0, 1, 2, 3]);
    assert_eq!(FastSwapSupport::default(), FastSwapSupport::NotSupported);
}

#[test]
fn rdo_fields() {
    let w: u32 = (2 << 28) | (1 << 27) | (1 << 25) | (1 << 23) | (250 << 10) | 300;
    let r = Rdo::from_bits(w);
    assert_eq!(r.bits(), w);
    assert_eq!(r.position(), 2);
    assert!(r.give_back());
    assert!(!r.capability_mismatch());
    assert!(r.usb_communication_capable());
    assert!(!r.no_usb_suspend());
    assert!(r.unchunked_extended_messages());
    assert_eq!(r.operating_current(), 250);
    assert_eq!(r.max_operating_current(), 300);
}

#[test]
fn register_and_opcode_bytes() {
    assert_eq!(Register::AlertStatus1.addr(), 0x0B);
    assert_eq!(Register::DPMPDONumb.addr(), 0x70);
    assert_eq!(Register::DPMSNKPDO2.addr(), 0x89);
    assert_eq!(Register::RDORegStatus.addr(), 0x91);
    assert_eq!(Register::NvmCtrl1.addr(), 0x97);
    assert_eq!(Register::RWBuffer.addr(), 0x53);
    assert_eq!(NvmCtrl1Opcode::EraseSectors.code(), 0x05);
    assert_eq!(NvmCtrl1Opcode::WriteSector.code(), 0x06);
}

#[test]
fn flags_drop_undefined_bits() {
    let a = Alert::from_bits_truncate(0xFF);
    assert_eq!(a.bits(), 0x7A);
    assert!(a.contains(Alert::PortStatus | Alert::PRTStatus));
    assert!(!Alert::from_bits_truncate(0x02).contains(Alert::PortStatus));
    let p = PortStatus1::from_bits_truncate(0x61);
    assert!(p.contains(PortStatus1::DebugAttached));
    assert!(p.contains(PortStatus1::Attached));
    assert!(!p.contains(PortStatus1::SinkingPower));
}

#[test]
fn device_addresses() {
    assert_eq!(Address::Default.addr(), 0x28);
    assert_eq!(Address::default().addr(), 0x28);
    assert_eq!(Address::Strap(true, false).addr(), 0x2A);
    assert_eq!(Address::Strap(false, true).addr(), 0x29);
    assert_eq!(Address::Strap(true, true).addr(), 0x2B);
    assert_eq!(Address::Custom(0x51).addr(), 0x51);
}

#[test]
fn default_alert_mask() {
    assert_eq!(stusb4500::registers::AlertMask::default().bits(), 0x62);
}
