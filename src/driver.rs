//! The driver handle: the device address, the register access layer and the register-level
//! commands.
use vstd::prelude::*;
use crate::bus::{
    commands, is_prefix, lemma_commands_push, lemma_ran_then, only_commands, ran, I2cBus, Outcome,
    Transfer,
};
use crate::pdo::{decodes_to, Pdo};
use crate::rdo::Rdo;
use crate::registers::{
    Alert, AlertMask, PortStatus0, PortStatus1, PrtStatus, Register, TypeCMonitoringStatus0,
    TypeCMonitoringStatus1,
};
use crate::nvm::{unlock_plan, STUSB4500Nvm};

verus! {

/// The device address with both address pins tied low.
pub const STUSB4500_ADDR: u8 = 0x28;

/// How many times a pending NVM request is polled before the driver gives up on it, unless
/// changed with `set_nvm_poll_limit`.
pub const DEFAULT_POLL_LIMIT: u32 = 10000;

/// The device address.
#[derive(Clone, Copy, Debug, PartialEq, Eq, Structural)]
pub enum Address {
    /// All address pins tied low.
    Default,
    /// Set by the A1 and A0 pins; `true` when tied high.
    Strap(bool, bool),
    /// Any other address.
    Custom(u8),
}

impl Address {
    pub open spec fn spec_addr(self) -> u8 {
        match self {
            Address::Default => STUSB4500_ADDR,
            Address::Strap(a1, a0) => (STUSB4500_ADDR | (if a1 { 2u8 } else { 0u8 })) | (if a0 {
                1u8
            } else {
                0u8
            }),
            Address::Custom(a) => a,
        }
    }

    /// The 7-bit address: the base address, with the strap pins in bits 1 and 0, or the custom
    /// address as given.
    #[verifier::when_used_as_spec(spec_addr)]
    pub fn addr(self) -> (r: u8)
        ensures
            r == self.spec_addr(),
    {
        match self {
            Address::Default => STUSB4500_ADDR,
            Address::Strap(a1, a0) => (STUSB4500_ADDR | (if a1 { 2u8 } else { 0u8 })) | (if a0 {
                1u8
            } else {
                0u8
            }),
            Address::Custom(a) => a,
        }
    }
}

impl Default for Address {
    fn default() -> (r: Self)
        ensures
            r == Address::Default,
    {
        Address::Default
    }
}

/// What can go wrong.
#[derive(Debug)]
pub enum Error<E> {
    /// The bus reported a fault.
    I2CError(E),
    /// A PDO that cannot be written to a sink slot, or a word with the reserved tag.
    InvalidPdo,
    /// A PDO count outside 1 to 3.
    OutaRangePdo,
    /// The controller did not acknowledge an NVM request within the poll limit.
    AcknowledgeTimeout,
}

/// One of the three sink PDO slots.
#[derive(Clone, Copy, Debug, PartialEq, Eq, Structural)]
pub enum PdoChannel {
    PDO1,
    PDO2,
    PDO3,
}

impl PdoChannel {
    pub open spec fn spec_register(self) -> Register {
        match self {
            PdoChannel::PDO1 => Register::DPMSNKPDO1,
            PdoChannel::PDO2 => Register::DPMSNKPDO2,
            PdoChannel::PDO3 => Register::DPMSNKPDO3,
        }
    }

    /// The slot's register.
    #[verifier::when_used_as_spec(spec_register)]
    pub fn register(self) -> (r: Register)
        ensures
            r == self.spec_register(),
    {
        match self {
            PdoChannel::PDO1 => Register::DPMSNKPDO1,
            PdoChannel::PDO2 => Register::DPMSNKPDO2,
            PdoChannel::PDO3 => Register::DPMSNKPDO3,
        }
    }
}

/// How a call that returned `r` ended on the bus: a bus fault, an unacknowledged NVM request, or
/// neither.
pub open spec fn outcome<T, E>(r: Result<T, Error<E>>) -> Outcome {
    match r {
        Err(Error::I2CError(_)) => Outcome::Faulted,
        Err(Error::AcknowledgeTimeout) => Outcome::Stopped,
        _ => Outcome::Done,
    }
}

/// The four bytes of `word`, least significant first.
pub open spec fn le_bytes(word: u32) -> Seq<u8> {
    seq![
        (word & 0xFF) as u8,
        ((word >> 8) & 0xFF) as u8,
        ((word >> 16) & 0xFF) as u8,
        ((word >> 24) & 0xFF) as u8,
    ]
}

/// The word whose bytes, least significant first, are the first four of `b`.
pub open spec fn le_word(b: Seq<u8>) -> u32 {
    (b[0] as u32) | ((b[1] as u32) << 8) | ((b[2] as u32) << 16) | ((b[3] as u32) << 24)
}

/// The write of `value` to the byte register `register`.
pub open spec fn byte_command(register: Register, value: u8) -> Seq<u8> {
    seq![register.spec_addr(), value]
}

/// The write of `word` to the word register `register`, least significant byte first.
pub open spec fn word_command(register: Register, word: u32) -> Seq<u8> {
    seq![register.spec_addr()] + le_bytes(word)
}

/// The bytes of the last read of `log`.
pub open spec fn last_read(log: Seq<Transfer>) -> Seq<u8> {
    log.last()->Read_bytes
}

/// Going from `before` to `after`, the driver read `len` bytes from `register`: it wrote the
/// register address and, when that succeeded, read. With `ok` both succeeded.
pub open spec fn read_ran(
    before: Seq<Transfer>,
    after: Seq<Transfer>,
    register: Register,
    len: nat,
    ok: bool,
) -> bool {
    let n = before.len();
    &&& is_prefix(before, after)
    &&& after.len() == n + 1 || after.len() == n + 2
    &&& after[n as int] is Write
    &&& after[n as int]->Write_bytes == seq![register.spec_addr()]
    &&& after[n as int].ok() == (after.len() == n + 2)
    &&& after.len() == n + 2 ==> {
        &&& after.last() is Read
        &&& last_read(after).len() == len
        &&& after.last().ok() == ok
    }
    &&& after.len() == n + 1 ==> !ok
}

/// A register read issues no command and stops at a failed transfer.
pub proof fn lemma_read_ran(
    before: Seq<Transfer>,
    after: Seq<Transfer>,
    register: Register,
    len: nat,
    ok: bool,
)
    requires
        read_ran(before, after, register, len, ok),
    ensures
        ran(before, after, seq![], if ok { Outcome::Done } else { Outcome::Faulted }),
{
    let n = before.len();
    let w = after[n as int];
    lemma_commands_push(before, w);
    assert(after.take((n + 1) as int) =~= before.push(w));
    if after.len() == n + 2 {
        lemma_commands_push(before.push(w), after.last());
        assert(after =~= before.push(w).push(after.last()));
    } else {
        assert(after =~= before.push(w));
    }
    assert(commands(before) + seq![] =~= commands(before));
}

/// A driver for the controller, over an exclusively owned bus.
pub struct STUSB4500<I2C> {
    i2c: I2C,
    address: u8,
    poll_limit: u32,
    log: Ghost<Seq<Transfer>>,
}

impl<I2C: I2cBus> STUSB4500<I2C> {
    /// The device address used on the bus.
    pub closed spec fn device_address(&self) -> u8 {
        self.address
    }

    /// How many times a pending NVM request is polled.
    pub closed spec fn poll_limit(&self) -> u32 {
        self.poll_limit
    }

    /// Every transfer the driver has handed to the bus, in order.
    pub closed spec fn transfers(&self) -> Seq<Transfer> {
        self.log@
    }

    /// `self` carries on from `other`: the same device address and poll limit, and every
    /// transfer issued since went to that address.
    pub open spec fn same_device(&self, other: &Self) -> bool {
        &&& self.device_address() == other.device_address()
        &&& self.poll_limit() == other.poll_limit()
        &&& forall|i: int|
            other.transfers().len() <= i < self.transfers().len() ==> (#[trigger] self.transfers()[i]).address()
                == self.device_address()
    }

    /// A driver for the controller at `address` on `i2c`; nothing is sent yet.
    pub fn new(i2c: I2C, address: Address) -> (r: Self)
        ensures
            r.device_address() == address.spec_addr(),
            r.poll_limit() == DEFAULT_POLL_LIMIT,
            r.transfers() == Seq::<Transfer>::empty(),
    {
        STUSB4500 {
            i2c,
            address: address.addr(),
            poll_limit: DEFAULT_POLL_LIMIT,
            log: Ghost(Seq::empty()),
        }
    }

    /// Sets how many times a pending NVM request is polled before `AcknowledgeTimeout`.
    pub fn set_nvm_poll_limit(&mut self, limit: u32)
        ensures
            final(self).poll_limit() == limit,
            final(self).device_address() == old(self).device_address(),
            final(self).transfers() == old(self).transfers(),
    {
        self.poll_limit = limit;
    }

    /// How many times a pending NVM request is polled.
    pub(crate) fn nvm_poll_limit(&self) -> (r: u32)
        ensures
            r == self.poll_limit(),
    {
        self.poll_limit
    }

    /// Unlocks the NVM for reading and writing; see `unlock_plan`. The session holds the driver
    /// until it is locked.
    pub fn unlock_nvm(&mut self) -> (r: Result<STUSB4500Nvm<'_, I2C>, Error<I2C::Error>>)
        ensures
            r matches Ok(s) ==> {
                &&& s.driver().same_device(old(self))
                &&& ran(old(self).transfers(), s.driver().transfers(), unlock_plan(), Outcome::Done)
                &&& only_commands(old(self).transfers(), s.driver().transfers())
                &&& *final(self) == *final(s.borrow())
            },
            r is Err ==> {
                &&& r->Err_0 is I2CError
                &&& final(self).same_device(old(self))
                &&& ran(old(self).transfers(), final(self).transfers(), unlock_plan(), Outcome::Faulted)
                &&& only_commands(old(self).transfers(), final(self).transfers())
            },
    {
        STUSB4500Nvm::unlock(self)
    }

    /// Hands `bytes` to the bus as one write.
    pub(crate) fn write_bytes(&mut self, bytes: &[u8]) -> (r: Result<(), Error<I2C::Error>>)
        ensures
            final(self).same_device(old(self)),
            final(self).transfers() == old(self).transfers().push(
                Transfer::Write { address: old(self).device_address(), bytes: bytes@, ok: r is Ok },
            ),
            r is Err ==> r->Err_0 is I2CError,
    {
        let res = self.i2c.write(self.address, bytes);
        self.log = Ghost(
            self.log@.push(Transfer::Write { address: self.address, bytes: bytes@, ok: res is Ok }),
        );
        match res {
            Ok(()) => Ok(()),
            Err(e) => Err(Error::I2CError(e)),
        }
    }

    /// Fills `buffer` with one read from the bus.
    pub(crate) fn read_bytes<const N: usize>(&mut self, buffer: &mut [u8; N]) -> (r: Result<
        (),
        Error<I2C::Error>,
    >)
        ensures
            final(self).same_device(old(self)),
            final(buffer)@.len() == N,
            final(self).transfers() == old(self).transfers().push(
                Transfer::Read { address: old(self).device_address(), bytes: final(buffer)@, ok: r is Ok },
            ),
            r is Err ==> r->Err_0 is I2CError,
    {
        let res = self.i2c.read(self.address, buffer);
        self.log = Ghost(
            self.log@.push(Transfer::Read { address: self.address, bytes: buffer@, ok: res is Ok }),
        );
        match res {
            Ok(()) => Ok(()),
            Err(e) => Err(Error::I2CError(e)),
        }
    }
    /// Writes `value` to the byte register `register`.
    pub(crate) fn write(&mut self, register: Register, value: u8) -> (r: Result<
        (),
        Error<I2C::Error>,
    >)
        ensures
            final(self).same_device(old(self)),
            only_commands(old(self).transfers(), final(self).transfers()),
            ran(
                old(self).transfers(),
                final(self).transfers(),
                seq![byte_command(register, value)],
                outcome(r),
            ),
            final(self).transfers().len() == old(self).transfers().len() + 1,
            final(self).transfers().last() is Write,
            r is Err ==> r->Err_0 is I2CError,
    {
        let buf = [register.addr(), value];
        let r = self.write_bytes(&buf);
        proof {
            lemma_commands_push(old(self).transfers(), self.transfers().last());
            assert(buf@ =~= byte_command(register, value));
            assert(commands(old(self).transfers()) + seq![byte_command(register, value)] =~= commands(
                old(self).transfers(),
            ).push(byte_command(register, value)));
        }
        r
    }

    /// Writes the eight bytes of `data` to the register block that starts at `register`.
    pub(crate) fn write_block(&mut self, register: Register, data: &[u8; 8]) -> (r: Result<
        (),
        Error<I2C::Error>,
    >)
        ensures
            final(self).same_device(old(self)),
            only_commands(old(self).transfers(), final(self).transfers()),
            ran(
                old(self).transfers(),
                final(self).transfers(),
                seq![seq![register.spec_addr()] + data@],
                outcome(r),
            ),
            final(self).transfers().len() == old(self).transfers().len() + 1,
            final(self).transfers().last() is Write,
            r is Err ==> r->Err_0 is I2CError,
    {
        let buf = [register.addr(), data[0], data[1], data[2], data[3], data[4], data[5], data[6], data[7]];
        let r = self.write_bytes(&buf);
        proof {
            let cmd = seq![register.spec_addr()] + data@;
            lemma_commands_push(old(self).transfers(), self.transfers().last());
            assert(buf@ =~= cmd);
            assert(commands(old(self).transfers()) + seq![cmd]
                =~= commands(old(self).transfers()).push(cmd));
        }
        r
    }

    /// Writes `word` to the word register `register`, least significant byte first.
    pub(crate) fn write_word(&mut self, register: Register, word: u32) -> (r: Result<
        (),
        Error<I2C::Error>,
    >)
        ensures
            final(self).same_device(old(self)),
            only_commands(old(self).transfers(), final(self).transfers()),
            ran(
                old(self).transfers(),
                final(self).transfers(),
                seq![word_command(register, word)],
                outcome(r),
            ),
            r is Err ==> r->Err_0 is I2CError,
    {
        let buf = [
            register.addr(),
            (word & 0xFF) as u8,
            ((word >> 8) & 0xFF) as u8,
            ((word >> 16) & 0xFF) as u8,
            ((word >> 24) & 0xFF) as u8,
        ];
        let r = self.write_bytes(&buf);
        proof {
            lemma_commands_push(old(self).transfers(), self.transfers().last());
            assert(buf@ =~= word_command(register, word));
            assert(commands(old(self).transfers()) + seq![word_command(register, word)] =~= commands(
                old(self).transfers(),
            ).push(word_command(register, word)));
        }
        r
    }

    /// Selects `register` and reads `N` bytes from it into `buffer`.
    pub(crate) fn read_into<const N: usize>(&mut self, register: Register, buffer: &mut [u8; N]) -> (r:
        Result<(), Error<I2C::Error>>)
        ensures
            final(self).same_device(old(self)),
            read_ran(old(self).transfers(), final(self).transfers(), register, N as nat, r is Ok),
            r is Ok ==> final(buffer)@ == last_read(final(self).transfers()),
            r is Err ==> r->Err_0 is I2CError,
    {
        let sel = [register.addr()];
        match self.write_bytes(&sel) {
            Ok(()) => {},
            Err(e) => {
                proof {
                    assert(sel@ =~= seq![register.spec_addr()]);
                }
                return Err(e);
            },
        }
        proof {
            assert(sel@ =~= seq![register.spec_addr()]);
        }
        self.read_bytes(buffer)
    }

    /// Reads the byte register `register`.
    pub(crate) fn read(&mut self, register: Register) -> (r: Result<u8, Error<I2C::Error>>)
        ensures
            final(self).same_device(old(self)),
            read_ran(old(self).transfers(), final(self).transfers(), register, 1, r is Ok),
            r matches Ok(v) ==> last_read(final(self).transfers()) == seq![v],
            r is Err ==> r->Err_0 is I2CError,
    {
        let mut buf = [0u8; 1];
        match self.read_into(register, &mut buf) {
            Ok(()) => {
                proof {
                    assert(buf@ =~= seq![buf[0]]);
                }
                Ok(buf[0])
            },
            Err(e) => Err(e),
        }
    }

    /// Reads the word register `register`, least significant byte first.
    pub(crate) fn read_word(&mut self, register: Register) -> (r: Result<u32, Error<I2C::Error>>)
        ensures
            final(self).same_device(old(self)),
            read_ran(old(self).transfers(), final(self).transfers(), register, 4, r is Ok),
            r matches Ok(w) ==> w == le_word(last_read(final(self).transfers())),
            r is Err ==> r->Err_0 is I2CError,
    {
        let mut buf = [0u8; 4];
        match self.read_into(register, &mut buf) {
            Ok(()) => Ok(
                (buf[0] as u32) | ((buf[1] as u32) << 8) | ((buf[2] as u32) << 16) | ((buf[3] as u32)
                    << 24),
            ),
            Err(e) => Err(e),
        }
    }
    /// Reads the ten interrupt status registers from the first port status register on, which
    /// clears them.
    pub fn clear_interrupts(&mut self) -> (r: Result<(), Error<I2C::Error>>)
        ensures
            final(self).same_device(old(self)),
            read_ran(
                old(self).transfers(),
                final(self).transfers(),
                Register::PortStatus0,
                10,
                r is Ok,
            ),
            r is Err ==> r->Err_0 is I2CError,
    {
        let mut buf = [0u8; 10];
        self.read_into(Register::PortStatus0, &mut buf)
    }

    /// Writes the interrupt mask.
    pub fn set_alerts_mask(&mut self, alerts: AlertMask) -> (r: Result<(), Error<I2C::Error>>)
        ensures
            final(self).same_device(old(self)),
            only_commands(old(self).transfers(), final(self).transfers()),
            ran(
                old(self).transfers(),
                final(self).transfers(),
                seq![byte_command(Register::AlertStatus1Mask, alerts.spec_bits())],
                outcome(r),
            ),
            alerts.spec_bits() & !AlertMask::ALL == 0,
            r is Err ==> r->Err_0 is I2CError,
    {
        self.write(Register::AlertStatus1Mask, alerts.bits())
    }

    /// Reads the pending interrupt flags. Undefined bits are dropped.
    pub fn get_alerts(&mut self) -> (r: Result<Alert, Error<I2C::Error>>)
        ensures
            final(self).same_device(old(self)),
            read_ran(
                old(self).transfers(),
                final(self).transfers(),
                Register::AlertStatus1,
                1,
                r is Ok,
            ),
            r matches Ok(f) ==> f.spec_bits() == last_read(final(self).transfers())[0] & Alert::ALL,
            r is Err ==> r->Err_0 is I2CError,
    {
        match self.read(Register::AlertStatus1) {
            Ok(v) => Ok(Alert::from_bits_truncate(v)),
            Err(e) => Err(e),
        }
    }

    /// Reads the first port status register. Undefined bits are dropped.
    pub fn get_portstatus0(&mut self) -> (r: Result<PortStatus0, Error<I2C::Error>>)
        ensures
            final(self).same_device(old(self)),
            read_ran(
                old(self).transfers(),
                final(self).transfers(),
                Register::PortStatus0,
                1,
                r is Ok,
            ),
            r matches Ok(f) ==> f.spec_bits() == last_read(final(self).transfers())[0] & PortStatus0::ALL,
            r is Err ==> r->Err_0 is I2CError,
    {
        match self.read(Register::PortStatus0) {
            Ok(v) => Ok(PortStatus0::from_bits_truncate(v)),
            Err(e) => Err(e),
        }
    }

    /// Reads the second port status register. Undefined bits are dropped.
    pub fn get_portstatus1(&mut self) -> (r: Result<PortStatus1, Error<I2C::Error>>)
        ensures
            final(self).same_device(old(self)),
            read_ran(
                old(self).transfers(),
                final(self).transfers(),
                Register::PortStatus1,
                1,
                r is Ok,
            ),
            r matches Ok(f) ==> f.spec_bits() == last_read(final(self).transfers())[0] & PortStatus1::ALL,
            r is Err ==> r->Err_0 is I2CError,
    {
        match self.read(Register::PortStatus1) {
            Ok(v) => Ok(PortStatus1::from_bits_truncate(v)),
            Err(e) => Err(e),
        }
    }

    /// Reads the VBUS transition flags. Undefined bits are dropped.
    pub fn get_typec_monitoring_status0(&mut self) -> (r: Result<TypeCMonitoringStatus0, Error<I2C::Error>>)
        ensures
            final(self).same_device(old(self)),
            read_ran(
                old(self).transfers(),
                final(self).transfers(),
                Register::TypeCMonitoringStatus0,
                1,
                r is Ok,
            ),
            r matches Ok(f) ==> f.spec_bits() == last_read(final(self).transfers())[0] & TypeCMonitoringStatus0::ALL,
            r is Err ==> r->Err_0 is I2CError,
    {
        match self.read(Register::TypeCMonitoringStatus0) {
            Ok(v) => Ok(TypeCMonitoringStatus0::from_bits_truncate(v)),
            Err(e) => Err(e),
        }
    }

    /// Reads the VBUS state flags. Undefined bits are dropped.
    pub fn get_typec_monitoring_status1(&mut self) -> (r: Result<TypeCMonitoringStatus1, Error<I2C::Error>>)
        ensures
            final(self).same_device(old(self)),
            read_ran(
                old(self).transfers(),
                final(self).transfers(),
                Register::TypeCMonitoringStatus1,
                1,
                r is Ok,
            ),
            r matches Ok(f) ==> f.spec_bits() == last_read(final(self).transfers())[0] & TypeCMonitoringStatus1::ALL,
            r is Err ==> r->Err_0 is I2CError,
    {
        match self.read(Register::TypeCMonitoringStatus1) {
            Ok(v) => Ok(TypeCMonitoringStatus1::from_bits_truncate(v)),
            Err(e) => Err(e),
        }
    }

    /// Reads the protocol layer status flags. Undefined bits are dropped.
    pub fn get_prt_status(&mut self) -> (r: Result<PrtStatus, Error<I2C::Error>>)
        ensures
            final(self).same_device(old(self)),
            read_ran(
                old(self).transfers(),
                final(self).transfers(),
                Register::PRTStatus,
                1,
                r is Ok,
            ),
            r matches Ok(f) ==> f.spec_bits() == last_read(final(self).transfers())[0] & PrtStatus::ALL,
            r is Err ==> r->Err_0 is I2CError,
    {
        match self.read(Register::PRTStatus) {
            Ok(v) => Ok(PrtStatus::from_bits_truncate(v)),
            Err(e) => Err(e),
        }
    }

    /// Soft reset: writes 0x0D to TX header low, then 0x26 to the PD command control register,
    /// which makes the controller negotiate its PDOs again.
    pub fn soft_reset(&mut self) -> (r: Result<(), Error<I2C::Error>>)
        ensures
            final(self).same_device(old(self)),
            only_commands(old(self).transfers(), final(self).transfers()),
            ran(old(self).transfers(), final(self).transfers(), soft_reset_plan(), outcome(r)),
            r is Err ==> r->Err_0 is I2CError,
    {
        let ghost t0 = self.transfers();
        match self.write(Register::TXHeaderL, 0x0D) {
            Ok(()) => {},
            Err(e) => {
                proof {
                    lemma_ran_then(t0, self.transfers(), self.transfers(),
                        seq![byte_command(Register::TXHeaderL, 0x0D)],
                        seq![byte_command(Register::PDCommandCtrl, 0x26)], Outcome::Faulted, Outcome::Faulted);
                    assert(soft_reset_plan() =~= seq![byte_command(Register::TXHeaderL, 0x0D)]
                        + seq![byte_command(Register::PDCommandCtrl, 0x26)]);
                }
                return Err(e);
            },
        }
        let ghost t1 = self.transfers();
        let r = self.write(Register::PDCommandCtrl, 0x26);
        proof {
            lemma_ran_then(t0, t1, self.transfers(),
                seq![byte_command(Register::TXHeaderL, 0x0D)],
                seq![byte_command(Register::PDCommandCtrl, 0x26)], Outcome::Done, outcome(r));
            assert(soft_reset_plan() =~= seq![byte_command(Register::TXHeaderL, 0x0D)]
                + seq![byte_command(Register::PDCommandCtrl, 0x26)]);
        }
        r
    }

    /// Writes a fixed supply PDO to a sink slot. Any other PDO is refused with `InvalidPdo`
    /// before anything reaches the bus.
    pub fn set_pdo(&mut self, pdo: PdoChannel, data: &Pdo) -> (r: Result<(), Error<I2C::Error>>)
        ensures
            final(self).same_device(old(self)),
            only_commands(old(self).transfers(), final(self).transfers()),
            data is Fixed ==> {
                &&& ran(
                    old(self).transfers(),
                    final(self).transfers(),
                    seq![word_command(pdo.spec_register(), data.word())],
                    outcome(r),
                )
                &&& (r is Err ==> r->Err_0 is I2CError)
            },
            !(data is Fixed) ==> {
                &&& r matches Err(Error::InvalidPdo)
                &&& final(self).transfers() == old(self).transfers()
            },
    {
        if let Pdo::Fixed(_) = data {
            self.write_word(pdo.register(), data.bits())
        } else {
            Err(Error::InvalidPdo)
        }
    }

    /// Reads a sink slot and decodes it; a word with the reserved tag gives `InvalidPdo`.
    pub fn get_pdo(&mut self, pdo: PdoChannel) -> (r: Result<Pdo, Error<I2C::Error>>)
        ensures
            final(self).same_device(old(self)),
            read_ran(
                old(self).transfers(),
                final(self).transfers(),
                pdo.spec_register(),
                4,
                !(r matches Err(Error::I2CError(_))),
            ),
            r matches Ok(p) ==> decodes_to(le_word(last_read(final(self).transfers())), Some(p)),
            r matches Err(Error::InvalidPdo) ==> decodes_to(
                le_word(last_read(final(self).transfers())),
                None,
            ),
            r is Err ==> (r->Err_0 is I2CError || r->Err_0 is InvalidPdo),
    {
        match self.read_word(pdo.register()) {
            Ok(w) => match Pdo::from_bits(w) {
                Some(p) => Ok(p),
                None => Err(Error::InvalidPdo),
            },
            Err(e) => Err(e),
        }
    }

    /// Reads the request data object of the negotiated contract.
    pub fn get_current_rdo(&mut self) -> (r: Result<Rdo, Error<I2C::Error>>)
        ensures
            final(self).same_device(old(self)),
            read_ran(
                old(self).transfers(),
                final(self).transfers(),
                Register::RDORegStatus,
                4,
                r is Ok,
            ),
            r matches Ok(o) ==> o.word() == le_word(last_read(final(self).transfers())),
            r is Err ==> r->Err_0 is I2CError,
    {
        match self.read_word(Register::RDORegStatus) {
            Ok(w) => Ok(Rdo::from_bits(w)),
            Err(e) => Err(e),
        }
    }

    /// Sets how many sink PDOs are advertised, 1 to 3; any other count is refused with
    /// `OutaRangePdo` before anything reaches the bus.
    pub fn set_num_pdo(&mut self, num: u8) -> (r: Result<(), Error<I2C::Error>>)
        ensures
            final(self).same_device(old(self)),
            only_commands(old(self).transfers(), final(self).transfers()),
            1 <= num <= 3 ==> {
                &&& ran(
                    old(self).transfers(),
                    final(self).transfers(),
                    seq![byte_command(Register::DPMPDONumb, num)],
                    outcome(r),
                )
                &&& (r is Err ==> r->Err_0 is I2CError)
            },
            !(1 <= num <= 3) ==> {
                &&& r matches Err(Error::OutaRangePdo)
                &&& final(self).transfers() == old(self).transfers()
            },
    {
        if 1 <= num && num <= 3 {
            self.write(Register::DPMPDONumb, num)
        } else {
            Err(Error::OutaRangePdo)
        }
    }
}

/// The two writes of a soft reset.
pub open spec fn soft_reset_plan() -> Seq<Seq<u8>> {
    seq![byte_command(Register::TXHeaderL, 0x0D), byte_command(Register::PDCommandCtrl, 0x26)]
}

} // verus!
