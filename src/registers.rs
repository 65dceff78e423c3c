//! The register map, the NVM opcodes and the one-byte status flag sets.
#![allow(non_upper_case_globals)]
use vstd::prelude::*;

verus! {

/// A register of the controller, named after the data sheet.
#[derive(Clone, Copy, Debug, PartialEq, Eq, Structural)]
pub enum Register {
    BcdTypeCRevL,
    BcdTypeCRevH,
    BcdUsbPDRevL,
    BcdUsbPDRevH,
    DeviceCapabHigh,
    AlertStatus1,
    AlertStatus1Mask,
    PortStatus0,
    PortStatus1,
    TypeCMonitoringStatus0,
    TypeCMonitoringStatus1,
    CCStatus,
    CCHWFaultStatus0,
    CCHWFaultStatus1,
    PDTypeCStatus,
    TypeCStatus,
    PRTStatus,
    PDCommandCtrl,
    MonitoringCtrl0,
    MonitoringCtrl2,
    ResetCtrl,
    VbusDischargeTimeCtrl,
    VbusDischargeCtrl,
    VbusCtrl,
    PEFSM,
    GpioSWGpio,
    DeviceId,
    RXHeaderL,
    RXHeaderH,
    RXDataObj, // four bytes
    TXHeaderL,
    TXHeaderH,
    RWBuffer, // eight bytes: the NVM sector buffer
    DPMPDONumb,
    DPMSNKPDO1, // four bytes
    DPMSNKPDO2, // four bytes
    DPMSNKPDO3, // four bytes
    RDORegStatus, // four bytes
    NvmPassword,
    NvmCtrl0,
    NvmCtrl1,
}

impl Register {
    /// The register's address byte.
    pub open spec fn spec_addr(self) -> u8 {
        match self {
            Register::BcdTypeCRevL => 0x06,
            Register::BcdTypeCRevH => 0x07,
            Register::BcdUsbPDRevL => 0x08,
            Register::BcdUsbPDRevH => 0x09,
            Register::DeviceCapabHigh => 0x0A,
            Register::AlertStatus1 => 0x0B,
            Register::AlertStatus1Mask => 0x0C,
            Register::PortStatus0 => 0x0D,
            Register::PortStatus1 => 0x0E,
            Register::TypeCMonitoringStatus0 => 0x0F,
            Register::TypeCMonitoringStatus1 => 0x10,
            Register::CCStatus => 0x11,
            Register::CCHWFaultStatus0 => 0x12,
            Register::CCHWFaultStatus1 => 0x13,
            Register::PDTypeCStatus => 0x14,
            Register::TypeCStatus => 0x15,
            Register::PRTStatus => 0x16,
            Register::PDCommandCtrl => 0x1A,
            Register::MonitoringCtrl0 => 0x20,
            Register::MonitoringCtrl2 => 0x22,
            Register::ResetCtrl => 0x23,
            Register::VbusDischargeTimeCtrl => 0x25,
            Register::VbusDischargeCtrl => 0x26,
            Register::VbusCtrl => 0x27,
            Register::PEFSM => 0x29,
            Register::GpioSWGpio => 0x2D,
            Register::DeviceId => 0x2F,
            Register::RXHeaderL => 0x31,
            Register::RXHeaderH => 0x32,
            Register::RXDataObj => 0x33,
            Register::TXHeaderL => 0x51,
            Register::TXHeaderH => 0x52,
            Register::RWBuffer => 0x53,
            Register::DPMPDONumb => 0x70,
            Register::DPMSNKPDO1 => 0x85,
            Register::DPMSNKPDO2 => 0x89,
            Register::DPMSNKPDO3 => 0x8D,
            Register::RDORegStatus => 0x91,
            Register::NvmPassword => 0x95,
            Register::NvmCtrl0 => 0x96,
            Register::NvmCtrl1 => 0x97,
        }
    }

    /// The register's address byte.
    #[verifier::when_used_as_spec(spec_addr)]
    pub fn addr(self) -> (r: u8)
        ensures
            r == self.spec_addr(),
    {
        match self {
            Register::BcdTypeCRevL => 0x06,
            Register::BcdTypeCRevH => 0x07,
            Register::BcdUsbPDRevL => 0x08,
            Register::BcdUsbPDRevH => 0x09,
            Register::DeviceCapabHigh => 0x0A,
            Register::AlertStatus1 => 0x0B,
            Register::AlertStatus1Mask => 0x0C,
            Register::PortStatus0 => 0x0D,
            Register::PortStatus1 => 0x0E,
            Register::TypeCMonitoringStatus0 => 0x0F,
            Register::TypeCMonitoringStatus1 => 0x10,
            Register::CCStatus => 0x11,
            Register::CCHWFaultStatus0 => 0x12,
            Register::CCHWFaultStatus1 => 0x13,
            Register::PDTypeCStatus => 0x14,
            Register::TypeCStatus => 0x15,
            Register::PRTStatus => 0x16,
            Register::PDCommandCtrl => 0x1A,
            Register::MonitoringCtrl0 => 0x20,
            Register::MonitoringCtrl2 => 0x22,
            Register::ResetCtrl => 0x23,
            Register::VbusDischargeTimeCtrl => 0x25,
            Register::VbusDischargeCtrl => 0x26,
            Register::VbusCtrl => 0x27,
            Register::PEFSM => 0x29,
            Register::GpioSWGpio => 0x2D,
            Register::DeviceId => 0x2F,
            Register::RXHeaderL => 0x31,
            Register::RXHeaderH => 0x32,
            Register::RXDataObj => 0x33,
            Register::TXHeaderL => 0x51,
            Register::TXHeaderH => 0x52,
            Register::RWBuffer => 0x53,
            Register::DPMPDONumb => 0x70,
            Register::DPMSNKPDO1 => 0x85,
            Register::DPMSNKPDO2 => 0x89,
            Register::DPMSNKPDO3 => 0x8D,
            Register::RDORegStatus => 0x91,
            Register::NvmPassword => 0x95,
            Register::NvmCtrl0 => 0x96,
            Register::NvmCtrl1 => 0x97,
        }
    }
}

/// An opcode of the NVM control register 1.
#[derive(Clone, Copy, Debug, PartialEq, Eq, Structural)]
pub enum NvmCtrl1Opcode {
    /// Read the sector data.
    ReadSector,
    /// Load the program load register.
    LoadPlr,
    /// Load the sector erase register.
    LoadSer,
    /// Dump the program load register.
    DumpPlr,
    /// Dump the sector erase register.
    DumpSer,
    /// Erase the sectors flagged in the sector erase register.
    EraseSectors,
    /// Program the sector data into the EEPROM.
    WriteSector,
}

impl NvmCtrl1Opcode {
    /// The opcode byte.
    pub open spec fn spec_code(self) -> u8 {
        match self {
            NvmCtrl1Opcode::ReadSector => 0x00,
            NvmCtrl1Opcode::LoadPlr => 0x01,
            NvmCtrl1Opcode::LoadSer => 0x02,
            NvmCtrl1Opcode::DumpPlr => 0x03,
            NvmCtrl1Opcode::DumpSer => 0x04,
            NvmCtrl1Opcode::EraseSectors => 0x05,
            NvmCtrl1Opcode::WriteSector => 0x06,
        }
    }

    /// The opcode byte.
    #[verifier::when_used_as_spec(spec_code)]
    pub fn code(self) -> (r: u8)
        ensures
            r == self.spec_code(),
    {
        match self {
            NvmCtrl1Opcode::ReadSector => 0x00,
            NvmCtrl1Opcode::LoadPlr => 0x01,
            NvmCtrl1Opcode::LoadSer => 0x02,
            NvmCtrl1Opcode::DumpPlr => 0x03,
            NvmCtrl1Opcode::DumpSer => 0x04,
            NvmCtrl1Opcode::EraseSectors => 0x05,
            NvmCtrl1Opcode::WriteSector => 0x06,
        }
    }
}

/// Masking a byte clears every bit outside the mask.
pub proof fn lemma_masked(b: u8, mask: u8)
    ensures
        (b & mask) & !mask == 0,
{
    assert((b & mask) & !mask == 0) by (bit_vector);
}

/// NVM control register 0: request an operation.
pub const NVM_CTRL0_REQUEST: u8 = 0x10;

/// NVM control register 0: enable the NVM.
pub const NVM_CTRL0_ENABLE: u8 = 0x40;

/// NVM control register 0: power the NVM.
pub const NVM_CTRL0_POWER: u8 = 0x80;

/// NVM control register 1: erase flags of sectors 0 to 4, bits 3 to 7.
pub const NVM_CTRL1_ERASE_ALL: u8 = 0xF8;

/// Interrupt sources that the alert mask register can mask.
#[derive(Clone, Copy, Debug, PartialEq, Eq, Structural)]
pub struct AlertMask {
    bits: u8,
}

impl AlertMask {
    pub const PortStatus: u8 = 0b01000000;

    pub const TypeCMonitoringStatus: u8 = 0b00100000;

    pub const CCFaultStatus: u8 = 0b00010000;

    pub const PRTStatus: u8 = 0b00000010;

    /// Every defined flag.
    pub const ALL: u8 = 0b01110010;

    pub closed spec fn spec_bits(self) -> u8 {
        self.bits
    }

    /// Undefined bits are zero.
    #[verifier::type_invariant]
    spec fn inv(self) -> bool {
        self.bits & !Self::ALL == 0
    }

    /// The flags as a byte; undefined bits are zero.
    #[verifier::when_used_as_spec(spec_bits)]
    pub fn bits(self) -> (r: u8)
        ensures
            r == self.spec_bits(),
            r & !Self::ALL == 0,
    {
        proof {
            use_type_invariant(&self);
        }
        self.bits
    }

    /// The defined flags of `bits`; the undefined bits are dropped.
    pub fn from_bits_truncate(bits: u8) -> (r: AlertMask)
        ensures
            r.spec_bits() == bits & Self::ALL,
    {
        proof {
            lemma_masked(bits, Self::ALL);
        }
        AlertMask { bits: bits & Self::ALL }
    }

    /// Every flag of `flags` is set in `self`.
    pub fn contains(self, flags: u8) -> (r: bool)
        ensures
            r == (self.spec_bits() & flags == flags),
    {
        self.bits & flags == flags
    }
}

impl Default for AlertMask {
    /// Port status, Type-C monitoring status and protocol status.
    fn default() -> (r: Self)
        ensures
            r.spec_bits() == 0x62,
    {
        let bits = AlertMask::PortStatus | AlertMask::TypeCMonitoringStatus | AlertMask::PRTStatus;
        assert(0b01000000u8 | 0b00100000u8 | 0b00000010u8 == 0x62u8 && 0x62u8 & !0b01110010u8 == 0)
            by (bit_vector);
        AlertMask { bits }
    }
}

/// Pending interrupt flags of the alert status register.
#[derive(Clone, Copy, Debug, PartialEq, Eq, Structural)]
pub struct Alert {
    bits: u8,
}

impl Alert {
    pub const PortStatus: u8 = 0b01000000;

    pub const TypeCMonitoringStatus: u8 = 0b00100000;

    pub const CCHWFaultStatus: u8 = 0b00010000;

    pub const PDTypeCStatus: u8 = 0b00001000;

    pub const PRTStatus: u8 = 0b00000010;

    /// Every defined flag.
    pub const ALL: u8 = 0b01111010;

    pub closed spec fn spec_bits(self) -> u8 {
        self.bits
    }

    /// Undefined bits are zero.
    #[verifier::type_invariant]
    spec fn inv(self) -> bool {
        self.bits & !Self::ALL == 0
    }

    /// The flags as a byte; undefined bits are zero.
    #[verifier::when_used_as_spec(spec_bits)]
    pub fn bits(self) -> (r: u8)
        ensures
            r == self.spec_bits(),
            r & !Self::ALL == 0,
    {
        proof {
            use_type_invariant(&self);
        }
        self.bits
    }

    /// The defined flags of `bits`; the undefined bits are dropped.
    pub fn from_bits_truncate(bits: u8) -> (r: Alert)
        ensures
            r.spec_bits() == bits & Self::ALL,
    {
        proof {
            lemma_masked(bits, Self::ALL);
        }
        Alert { bits: bits & Self::ALL }
    }

    /// Every flag of `flags` is set in `self`.
    pub fn contains(self, flags: u8) -> (r: bool)
        ensures
            r == (self.spec_bits() & flags == flags),
    {
        self.bits & flags == flags
    }
}

/// Attach transition flag of the first port status register.
#[derive(Clone, Copy, Debug, PartialEq, Eq, Structural)]
pub struct PortStatus0 {
    bits: u8,
}

impl PortStatus0 {
    pub const AttachTrans: u8 = 0b00000001;

    /// Every defined flag.
    pub const ALL: u8 = 0b00000001;

    pub closed spec fn spec_bits(self) -> u8 {
        self.bits
    }

    /// Undefined bits are zero.
    #[verifier::type_invariant]
    spec fn inv(self) -> bool {
        self.bits & !Self::ALL == 0
    }

    /// The flags as a byte; undefined bits are zero.
    #[verifier::when_used_as_spec(spec_bits)]
    pub fn bits(self) -> (r: u8)
        ensures
            r == self.spec_bits(),
            r & !Self::ALL == 0,
    {
        proof {
            use_type_invariant(&self);
        }
        self.bits
    }

    /// The defined flags of `bits`; the undefined bits are dropped.
    pub fn from_bits_truncate(bits: u8) -> (r: PortStatus0)
        ensures
            r.spec_bits() == bits & Self::ALL,
    {
        proof {
            lemma_masked(bits, Self::ALL);
        }
        PortStatus0 { bits: bits & Self::ALL }
    }

    /// Every flag of `flags` is set in `self`.
    pub fn contains(self, flags: u8) -> (r: bool)
        ensures
            r == (self.spec_bits() & flags == flags),
    {
        self.bits & flags == flags
    }
}

/// Attach and power state of the second port status register.
#[derive(Clone, Copy, Debug, PartialEq, Eq, Structural)]
pub struct PortStatus1 {
    bits: u8,
}

impl PortStatus1 {
    pub const SinkAttached: u8 = 0b00100000;

    pub const DebugAttached: u8 = 0b01100000;

    pub const SinkingPower: u8 = 0b00001000;

    pub const DataModeUFP: u8 = 0b00000100;

    pub const Attached: u8 = 0b00000001;

    /// Every defined flag.
    pub const ALL: u8 = 0b01101101;

    pub closed spec fn spec_bits(self) -> u8 {
        self.bits
    }

    /// Undefined bits are zero.
    #[verifier::type_invariant]
    spec fn inv(self) -> bool {
        self.bits & !Self::ALL == 0
    }

    /// The flags as a byte; undefined bits are zero.
    #[verifier::when_used_as_spec(spec_bits)]
    pub fn bits(self) -> (r: u8)
        ensures
            r == self.spec_bits(),
            r & !Self::ALL == 0,
    {
        proof {
            use_type_invariant(&self);
        }
        self.bits
    }

    /// The defined flags of `bits`; the undefined bits are dropped.
    pub fn from_bits_truncate(bits: u8) -> (r: PortStatus1)
        ensures
            r.spec_bits() == bits & Self::ALL,
    {
        proof {
            lemma_masked(bits, Self::ALL);
        }
        PortStatus1 { bits: bits & Self::ALL }
    }

    /// Every flag of `flags` is set in `self`.
    pub fn contains(self, flags: u8) -> (r: bool)
        ensures
            r == (self.spec_bits() & flags == flags),
    {
        self.bits & flags == flags
    }
}

/// VBUS transition flags.
#[derive(Clone, Copy, Debug, PartialEq, Eq, Structural)]
pub struct TypeCMonitoringStatus0 {
    bits: u8,
}

impl TypeCMonitoringStatus0 {
    pub const VbusHighStatus: u8 = 0b00100000;

    pub const VbusLowStatus: u8 = 0b00010000;

    pub const VbusReadyTrans: u8 = 0b00001000;

    pub const VbusVsafe0VTrans: u8 = 0b00000100;

    pub const VbusValidSnkTrans: u8 = 0b00000010;

    /// Every defined flag.
    pub const ALL: u8 = 0b00111110;

    pub closed spec fn spec_bits(self) -> u8 {
        self.bits
    }

    /// Undefined bits are zero.
    #[verifier::type_invariant]
    spec fn inv(self) -> bool {
        self.bits & !Self::ALL == 0
    }

    /// The flags as a byte; undefined bits are zero.
    #[verifier::when_used_as_spec(spec_bits)]
    pub fn bits(self) -> (r: u8)
        ensures
            r == self.spec_bits(),
            r & !Self::ALL == 0,
    {
        proof {
            use_type_invariant(&self);
        }
        self.bits
    }

    /// The defined flags of `bits`; the undefined bits are dropped.
    pub fn from_bits_truncate(bits: u8) -> (r: TypeCMonitoringStatus0)
        ensures
            r.spec_bits() == bits & Self::ALL,
    {
        proof {
            lemma_masked(bits, Self::ALL);
        }
        TypeCMonitoringStatus0 { bits: bits & Self::ALL }
    }

    /// Every flag of `flags` is set in `self`.
    pub fn contains(self, flags: u8) -> (r: bool)
        ensures
            r == (self.spec_bits() & flags == flags),
    {
        self.bits & flags == flags
    }
}

/// VBUS state flags.
#[derive(Clone, Copy, Debug, PartialEq, Eq, Structural)]
pub struct TypeCMonitoringStatus1 {
    bits: u8,
}

impl TypeCMonitoringStatus1 {
    pub const VbusReady: u8 = 0b00001000;

    pub const VbusVsafe0V: u8 = 0b00000100;

    pub const VbusValidSnk: u8 = 0b00000010;

    /// Every defined flag.
    pub const ALL: u8 = 0b00001110;

    pub closed spec fn spec_bits(self) -> u8 {
        self.bits
    }

    /// Undefined bits are zero.
    #[verifier::type_invariant]
    spec fn inv(self) -> bool {
        self.bits & !Self::ALL == 0
    }

    /// The flags as a byte; undefined bits are zero.
    #[verifier::when_used_as_spec(spec_bits)]
    pub fn bits(self) -> (r: u8)
        ensures
            r == self.spec_bits(),
            r & !Self::ALL == 0,
    {
        proof {
            use_type_invariant(&self);
        }
        self.bits
    }

    /// The defined flags of `bits`; the undefined bits are dropped.
    pub fn from_bits_truncate(bits: u8) -> (r: TypeCMonitoringStatus1)
        ensures
            r.spec_bits() == bits & Self::ALL,
    {
        proof {
            lemma_masked(bits, Self::ALL);
        }
        TypeCMonitoringStatus1 { bits: bits & Self::ALL }
    }

    /// Every flag of `flags` is set in `self`.
    pub fn contains(self, flags: u8) -> (r: bool)
        ensures
            r == (self.spec_bits() & flags == flags),
    {
        self.bits & flags == flags
    }
}

/// Protocol layer status flags.
#[derive(Clone, Copy, Debug, PartialEq, Eq, Structural)]
pub struct PrtStatus {
    bits: u8,
}

impl PrtStatus {
    pub const PrlMessageReceived: u8 = 0b00000100;

    pub const PrlHwResetReceived: u8 = 0b00000010;

    /// Every defined flag.
    pub const ALL: u8 = 0b00000110;

    pub closed spec fn spec_bits(self) -> u8 {
        self.bits
    }

    /// Undefined bits are zero.
    #[verifier::type_invariant]
    spec fn inv(self) -> bool {
        self.bits & !Self::ALL == 0
    }

    /// The flags as a byte; undefined bits are zero.
    #[verifier::when_used_as_spec(spec_bits)]
    pub fn bits(self) -> (r: u8)
        ensures
            r == self.spec_bits(),
            r & !Self::ALL == 0,
    {
        proof {
            use_type_invariant(&self);
        }
        self.bits
    }

    /// The defined flags of `bits`; the undefined bits are dropped.
    pub fn from_bits_truncate(bits: u8) -> (r: PrtStatus)
        ensures
            r.spec_bits() == bits & Self::ALL,
    {
        proof {
            lemma_masked(bits, Self::ALL);
        }
        PrtStatus { bits: bits & Self::ALL }
    }

    /// Every flag of `flags` is set in `self`.
    pub fn contains(self, flags: u8) -> (r: bool)
        ensures
            r == (self.spec_bits() & flags == flags),
    {
        self.bits & flags == flags
    }
}

} // verus!
