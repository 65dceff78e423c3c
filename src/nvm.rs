//! The NVM session: unlocking, erasing, programming, reading and locking the five EEPROM
//! sectors.
use vstd::prelude::*;
use crate::bus::{
    commands, lemma_commands_push, lemma_only_commands, lemma_ran_start, lemma_ran_step, lemma_ran_then,
    only_commands, ran,
    written, I2cBus, Outcome, Transfer,
};
use crate::driver::{byte_command, last_read, lemma_read_ran, outcome, read_ran, Error, STUSB4500};
use crate::registers::{
    NvmCtrl1Opcode, Register, NVM_CTRL0_ENABLE, NVM_CTRL0_POWER, NVM_CTRL0_REQUEST, NVM_CTRL1_ERASE_ALL,
};

verus! {

/// The password that unlocks the NVM.
pub const NVM_PASSWORD: u8 = 0x47;

/// The writes that unlock the NVM: the password, a cleared control register 0, then control
/// register 0 with power and enable set.
pub open spec fn unlock_plan() -> Seq<Seq<u8>> {
    seq![
        byte_command(Register::NvmPassword, NVM_PASSWORD),
        byte_command(Register::NvmCtrl0, 0),
        byte_command(Register::NvmCtrl0, 0xC0),
    ]
}

/// The writes that lock the NVM: control register 0 with only enable set, a cleared control
/// register 1, then a cleared password.
pub open spec fn lock_plan() -> Seq<Seq<u8>> {
    seq![
        byte_command(Register::NvmCtrl0, 0x40),
        byte_command(Register::NvmCtrl1, 0),
        byte_command(Register::NvmPassword, 0),
    ]
}

/// The write to control register 0 that requests the operation loaded in control register 1,
/// on `sector`: power, enable and request set, the sector in the low bits.
pub open spec fn request_command(sector: u8) -> Seq<u8> {
    byte_command(Register::NvmCtrl0, sector | 0xD0)
}

/// The writes that erase all five sectors: load the sector erase register with every sector
/// flagged, then run the erase.
pub open spec fn erase_plan() -> Seq<Seq<u8>> {
    seq![
        byte_command(Register::NvmCtrl1, 0xFA),
        request_command(0),
        byte_command(Register::NvmCtrl1, 0x05),
        request_command(0),
    ]
}

/// The writes that prepare a read of `sector` into the sector buffer.
pub open spec fn read_sector_plan(sector: u8) -> Seq<Seq<u8>> {
    seq![byte_command(Register::NvmCtrl1, 0x00), request_command(sector)]
}

/// The writes that program `data` into `sector`: fill the sector buffer, load it into the program
/// load register, then write the sector.
pub open spec fn write_sector_plan(sector: u8, data: Seq<u8>) -> Seq<Seq<u8>> {
    seq![
        seq![Register::RWBuffer.spec_addr()] + data,
        byte_command(Register::NvmCtrl1, 0x01),
        request_command(0),
        byte_command(Register::NvmCtrl1, 0x06),
        request_command(sector),
    ]
}

/// The writes that read sectors `0 .. n`, in index order.
pub open spec fn read_sectors_plan(n: nat) -> Seq<Seq<u8>>
    decreases n,
{
    if n == 0 {
        seq![]
    } else {
        read_sectors_plan((n - 1) as nat) + read_sector_plan((n - 1) as u8)
    }
}

/// The writes that program `sectors[0 .. n]` into sectors `0 .. n`, in index order.
pub open spec fn program_plan(sectors: Seq<Seq<u8>>, n: nat) -> Seq<Seq<u8>>
    decreases n,
{
    if n == 0 {
        seq![]
    } else {
        program_plan(sectors, (n - 1) as nat) + write_sector_plan((n - 1) as u8, sectors[n - 1])
    }
}

/// The data of each successful read of the sector buffer in `log`: a read that comes right after
/// the acknowledged write selecting the buffer.
pub open spec fn buffer_reads(log: Seq<Transfer>) -> Seq<Seq<u8>>
    decreases log.len(),
{
    if log.len() < 2 {
        seq![]
    } else if log.last() is Read && log.last().ok() && selects_buffer(log[log.len() - 2]) {
        buffer_reads(log.drop_last()).push(last_read(log))
    } else {
        buffer_reads(log.drop_last())
    }
}

/// `t` is an acknowledged write that selects the sector buffer.
pub open spec fn selects_buffer(t: Transfer) -> bool {
    &&& t is Write
    &&& t->Write_bytes == seq![Register::RWBuffer.spec_addr()]
    &&& t.ok()
}

/// The sectors of `block`, as sequences.
pub open spec fn sectors_of(block: [[u8; 8]; 5]) -> Seq<Seq<u8>> {
    block@.map_values(|s: [u8; 8]| s@)
}

/// `t` selects `register` for a read: a write of its address alone.
pub open spec fn is_select(t: Transfer, register: Register) -> bool {
    &&& t is Write
    &&& t->Write_bytes == seq![register.spec_addr()]
}

/// `t` is a write to control register 0 with the request bit set.
pub open spec fn is_request(t: Transfer) -> bool {
    &&& t is Write
    &&& t->Write_bytes.len() == 2
    &&& t->Write_bytes[0] == Register::NvmCtrl0.spec_addr()
    &&& t->Write_bytes[1] & NVM_CTRL0_REQUEST != 0
}

/// `t` is a one-byte read whose request bit is set when `busy`, clear otherwise.
pub open spec fn is_poll(t: Transfer, busy: bool) -> bool {
    &&& t is Read
    &&& t->Read_bytes.len() == 1
    &&& (t->Read_bytes[0] & NVM_CTRL0_REQUEST != 0) == busy
}

/// `t` succeeded and leaves a request pending: a request, or a poll that read the request bit
/// set. The next transfer polls control register 0.
pub open spec fn awaits_ack(t: Transfer) -> bool {
    &&& t.ok()
    &&& (is_request(t) || is_poll(t, true))
}

/// Transfer `i` of `log`, issued by an NVM operation that began at `start`, fits the request
/// handshake: it is a command, a read, or the selection of control register 0 (or, when
/// `buffer`, of the sector buffer); control register 0 is selected only right after a transfer
/// that awaits the acknowledgement, and always then; the sector buffer only right after a poll
/// that read the request bit clear; every read follows the selection of its register, one byte
/// for control register 0 and eight for the sector buffer.
pub open spec fn step_ok(log: Seq<Transfer>, start: int, i: int, buffer: bool) -> bool {
    let t = log[i];
    &&& t.is_command() || is_select(t, Register::NvmCtrl0) || (buffer && is_select(
        t,
        Register::RWBuffer,
    )) || t is Read
    &&& is_select(t, Register::NvmCtrl0) ==> start < i && awaits_ack(log[i - 1])
    &&& is_select(t, Register::RWBuffer) ==> start < i && log[i - 1].ok() && is_poll(log[i - 1], false)
    &&& t is Read ==> {
        &&& start < i
        &&& log[i - 1].ok()
        &&& (is_select(log[i - 1], Register::NvmCtrl0) && t->Read_bytes.len() == 1) || (is_select(
            log[i - 1],
            Register::RWBuffer,
        ) && t->Read_bytes.len() == 8)
    }
    &&& i + 1 < log.len() && awaits_ack(t) ==> is_select(log[i + 1], Register::NvmCtrl0)
    &&& i + 1 < log.len() && t.ok() && (is_select(t, Register::NvmCtrl0) || is_select(
        t,
        Register::RWBuffer,
    )) ==> log[i + 1] is Read
}

/// Every transfer of `log` from `start` on fits the request handshake.
pub open spec fn polls_well(log: Seq<Transfer>, start: int, buffer: bool) -> bool {
    forall|i: int| start <= i < log.len() ==> #[trigger] step_ok(log, start, i, buffer)
}

/// Nothing is left pending at the end of `log`: no request awaits its acknowledgement and no
/// selected register awaits its read.
pub open spec fn settled(log: Seq<Transfer>, start: int) -> bool {
    log.len() > start ==> !(awaits_ack(log.last()) || (log.last().ok() && (is_select(
        log.last(),
        Register::NvmCtrl0,
    ) || is_select(log.last(), Register::RWBuffer))))
}

/// Poll `k` after the request at `p`: an acknowledged selection of control register 0, then an
/// acknowledged read that shows the request bit still set.
pub open spec fn busy_poll(log: Seq<Transfer>, p: int, k: int) -> bool {
    &&& is_select(log[p + 1 + 2 * k], Register::NvmCtrl0)
    &&& log[p + 1 + 2 * k].ok()
    &&& is_poll(log[p + 2 + 2 * k], true)
    &&& log[p + 2 + 2 * k].ok()
}

/// `log` ends with an acknowledged request, at or after `start`, followed by exactly `limit`
/// polls that all read the request bit set.
pub open spec fn timed_out(log: Seq<Transfer>, start: int, limit: nat) -> bool {
    let p = log.len() - 1 - 2 * limit;
    &&& start <= p
    &&& is_request(log[p])
    &&& log[p].ok()
    &&& forall|k: int| 0 <= k < limit ==> #[trigger] busy_poll(log, p, k)
}

/// Going from `before` to `after`, an NVM operation issued the register writes `plan` (see
/// `ran`), and every other transfer belongs to the request handshake: after each request it
/// polled control register 0 until a read showed the request bit clear. With `Done` nothing is
/// left pending; it stops with `Stopped` only after a request followed by `limit` polls that all
/// read the bit set. When `buffer`, it may also read the sector buffer after a request.
pub open spec fn nvm_ran(
    before: Seq<Transfer>,
    after: Seq<Transfer>,
    plan: Seq<Seq<u8>>,
    outcome: Outcome,
    buffer: bool,
    limit: nat,
) -> bool {
    &&& ran(before, after, plan, outcome)
    &&& polls_well(after, before.len() as int, buffer)
    &&& (outcome is Done ==> settled(after, before.len() as int))
    &&& (outcome is Stopped ==> timed_out(after, before.len() as int, limit))
}

/// An NVM operation that has issued nothing yet.
proof fn lemma_nvm_start(log: Seq<Transfer>, buffer: bool, limit: nat)
    ensures
        nvm_ran(log, log, seq![], Outcome::Done, buffer, limit),
{
    lemma_ran_start(log);
}

/// One more step of an NVM operation; see `lemma_ran_step`.
proof fn lemma_nvm_step(
    start: Seq<Transfer>,
    mid: Seq<Transfer>,
    end: Seq<Transfer>,
    done: Seq<Seq<u8>>,
    step: Seq<Seq<u8>>,
    rest: Seq<Seq<u8>>,
    o: Outcome,
    b1: bool,
    b2: bool,
    limit: nat,
)
    requires
        nvm_ran(start, mid, done, Outcome::Done, b1, limit),
        nvm_ran(mid, end, step, o, b2, limit),
    ensures
        nvm_ran(start, end, done + step, o, b1 || b2, limit),
        !(o is Done) ==> nvm_ran(start, end, done + step + rest, o, b1 || b2, limit),
{
    lemma_ran_step(start, mid, end, done, step, rest, o);
    let s = start.len() as int;
    let m = mid.len() as int;
    let b = b1 || b2;
    assert forall|i: int| s <= i < end.len() implies #[trigger] step_ok(end, s, i, b) by {
        if i < m {
            assert(step_ok(mid, s, i, b1));
            assert(mid[i] == end[i]);
            if i > s {
                assert(mid[i - 1] == end[i - 1]);
            }
            if i + 1 < m {
                assert(mid[i + 1] == end[i + 1]);
            }
            if i + 1 == m {
                assert(mid.last() == mid[i]);
            }
        } else {
            assert(step_ok(end, m, i, b2));
        }
    }
    if end.len() == mid.len() {
        assert(end =~= mid);
    }
    if o is Stopped {
        let p = end.len() - 1 - 2 * limit;
        assert forall|k: int| 0 <= k < limit implies #[trigger] busy_poll(end, p, k) by {
            assert(timed_out(end, m, limit));
        }
    }
}

/// A single write of a command that is not a request is a complete NVM step.
proof fn lemma_command_step(mid: Seq<Transfer>, end: Seq<Transfer>, step: Seq<Seq<u8>>, o: Outcome, limit: nat)
    requires
        ran(mid, end, step, o),
        only_commands(mid, end),
        end.len() == mid.len() + 1,
        step.len() == 1,
        step[0].len() == 2 ==> step[0][0] != Register::NvmCtrl0.spec_addr(),
        !(o is Stopped),
    ensures
        nvm_ran(mid, end, step, o, false, limit),
{
    let m = mid.len() as int;
    let t = end[m];
    assert(t.is_command());
    lemma_commands_push(mid, t);
    assert(end =~= mid.push(t));
    let cm = commands(mid);
    assert(commands(end)[cm.len() as int] == (cm + step)[cm.len() as int]);
    assert(t->Write_bytes == step[0]);
    assert(!is_select(t, Register::NvmCtrl0)) by {
        if is_select(t, Register::NvmCtrl0) {
            assert(t->Write_bytes.len() == 1);
        }
    }
    assert(!is_select(t, Register::RWBuffer)) by {
        if is_select(t, Register::RWBuffer) {
            assert(t->Write_bytes.len() == 1);
        }
    }
    assert(step_ok(end, m, m, false));
}

/// A poll of control register 0 appended to an operation that awaits the acknowledgement keeps
/// the handshake; when both transfers succeeded the log ends with the one-byte read.
proof fn lemma_poll_appended(s: int, b: Seq<Transfer>, after: Seq<Transfer>, ok: bool)
    requires
        0 <= s < b.len(),
        polls_well(b, s, false),
        awaits_ack(b.last()),
        read_ran(b, after, Register::NvmCtrl0, 1, ok),
    ensures
        polls_well(after, s, false),
        after.len() == b.len() + 2 && ok ==> after.last().ok() && after.last() is Read
            && after.last()->Read_bytes.len() == 1,
        after.len() == b.len() + 2 || !ok,
{
    let n = b.len() as int;
    assert forall|i: int| s <= i < after.len() implies #[trigger] step_ok(after, s, i, false) by {
        if i < n {
            assert(step_ok(b, s, i, false));
            assert(after[i] == b[i]);
            if i > s {
                assert(after[i - 1] == b[i - 1]);
            }
            if i + 1 < n {
                assert(after[i + 1] == b[i + 1]);
            }
            if i == n - 1 {
                assert(b.last() == b[i]);
                assert(!is_select(b[i], Register::NvmCtrl0)) by {
                    if is_select(b[i], Register::NvmCtrl0) {
                        assert(b[i]->Write_bytes.len() == 1);
                    }
                }
                assert(!is_select(b[i], Register::RWBuffer)) by {
                    if is_select(b[i], Register::RWBuffer) {
                        assert(b[i]->Write_bytes.len() == 1);
                    }
                }
            }
        } else if i == n {
            assert(after[n - 1] == b.last());
            assert(!is_select(after[n], Register::RWBuffer)) by {
                assert(after[n]->Write_bytes[0] == Register::NvmCtrl0.spec_addr());
            }
            assert(!awaits_ack(after[n])) by {
                assert(after[n]->Write_bytes.len() == 1);
            }
        } else {
            assert(!is_select(after[i], Register::NvmCtrl0));
            assert(!is_select(after[i], Register::RWBuffer));
            assert(!(after[i - 1]->Write_bytes =~= seq![Register::RWBuffer.spec_addr()])) by {
                assert(after[i - 1]->Write_bytes[0] == Register::NvmCtrl0.spec_addr());
            }
        }
    }
}

/// A read of the sector buffer appended right after a poll that read the request bit clear keeps
/// the handshake and leaves nothing pending.
proof fn lemma_buffer_read_appended(s: int, b: Seq<Transfer>, after: Seq<Transfer>, ok: bool)
    requires
        0 <= s < b.len(),
        polls_well(b, s, false),
        b.last().ok(),
        is_poll(b.last(), false),
        read_ran(b, after, Register::RWBuffer, 8, ok),
    ensures
        polls_well(after, s, true),
        settled(after, s),
{
    let n = b.len() as int;
    assert forall|i: int| s <= i < after.len() implies #[trigger] step_ok(after, s, i, true) by {
        if i < n {
            assert(step_ok(b, s, i, false));
            assert(after[i] == b[i]);
            if i > s {
                assert(after[i - 1] == b[i - 1]);
            }
            if i + 1 < n {
                assert(after[i + 1] == b[i + 1]);
            }
            if i == n - 1 {
                assert(b.last() == b[i]);
            }
        } else if i == n {
            assert(after[n - 1] == b.last());
            assert(!is_select(after[n], Register::NvmCtrl0)) by {
                assert(after[n]->Write_bytes[0] == Register::RWBuffer.spec_addr());
            }
            assert(!awaits_ack(after[n])) by {
                assert(after[n]->Write_bytes.len() == 1);
            }
        } else {
            assert(!(after[i - 1]->Write_bytes =~= seq![Register::NvmCtrl0.spec_addr()])) by {
                assert(after[i - 1]->Write_bytes[0] == Register::RWBuffer.spec_addr());
            }
        }
    }
    if after.len() == n + 1 {
        assert(after.last() == after[n]);
    }
}

/// A handshake without sector buffer reads is one that allows them.
proof fn lemma_polls_well_buffer(log: Seq<Transfer>, s: int)
    requires
        polls_well(log, s, false),
    ensures
        polls_well(log, s, true),
{
    assert forall|i: int| s <= i < log.len() implies #[trigger] step_ok(log, s, i, true) by {
        assert(step_ok(log, s, i, false));
    }
}

/// How `buffer_reads` changes when a transfer is appended.
proof fn lemma_buffer_reads_push(log: Seq<Transfer>, t: Transfer)
    ensures
        buffer_reads(log.push(t)) == if log.len() >= 1 && t is Read && t.ok() && selects_buffer(log.last()) {
            buffer_reads(log).push(t->Read_bytes)
        } else {
            buffer_reads(log)
        },
{
    assert(log.push(t).drop_last() =~= log);
}

/// A register read of anything but the sector buffer leaves `buffer_reads` as it was.
proof fn lemma_buffer_reads_other(
    before: Seq<Transfer>,
    after: Seq<Transfer>,
    register: Register,
    len: nat,
    ok: bool,
)
    requires
        read_ran(before, after, register, len, ok),
        register != Register::RWBuffer,
    ensures
        buffer_reads(after) == buffer_reads(before),
{
    let n = before.len();
    let w = after[n as int];
    lemma_buffer_reads_push(before, w);
    assert(register.spec_addr() != Register::RWBuffer.spec_addr());
    assert(seq![register.spec_addr()] != seq![Register::RWBuffer.spec_addr()]) by {
        assert(seq![register.spec_addr()][0] != seq![Register::RWBuffer.spec_addr()][0]);
    }
    if after.len() == n + 2 {
        lemma_buffer_reads_push(before.push(w), after.last());
        assert(after =~= before.push(w).push(after.last()));
    } else {
        assert(after =~= before.push(w));
    }
}

/// Unlocking the NVM and locking it again at once hands the bus exactly the six writes of
/// `unlock_plan` and `lock_plan`, in that order, each acknowledged, and nothing else: no read
/// and no sector buffer traffic.
pub proof fn lemma_unlock_then_lock(a: Seq<Transfer>, b: Seq<Transfer>, c: Seq<Transfer>)
    requires
        ran(a, b, unlock_plan(), Outcome::Done),
        only_commands(a, b),
        ran(b, c, lock_plan(), Outcome::Done),
        only_commands(b, c),
    ensures
        c.len() == a.len() + 6,
        forall|i: int|
            0 <= i < 6 ==> {
                &&& c[a.len() + i] is Write
                &&& c[a.len() + i]->Write_bytes == (unlock_plan() + lock_plan())[i]
                &&& c[a.len() + i].ok()
            },
{
    lemma_ran_then(a, b, c, unlock_plan(), lock_plan(), Outcome::Done, Outcome::Done);
    lemma_only_commands(a, c);
    let w = written(c.skip(a.len() as int));
    assert(commands(a) + w == commands(a) + (unlock_plan() + lock_plan()));
    assert(w =~= unlock_plan() + lock_plan()) by {
        assert forall|i: int| 0 <= i < w.len() implies w[i] == (unlock_plan() + lock_plan())[i] by {
            assert((commands(a) + w)[commands(a).len() + i] == w[i]);
        }
        assert((commands(a) + w).len() == (commands(a) + (unlock_plan() + lock_plan())).len());
    }
    assert forall|i: int| 0 <= i < 6 implies {
        &&& c[a.len() + i] is Write
        &&& c[a.len() + i]->Write_bytes == (unlock_plan() + lock_plan())[i]
        &&& c[a.len() + i].ok()
    } by {
        assert(w[i] == c[a.len() + i]->Write_bytes);
        assert(c[a.len() + i].is_command());
        assert(c[a.len() + i].ok());
    }
}

/// Password-unlocked access to the NVM, holding the driver for as long as it lasts. Dropping it
/// without `lock` leaves the NVM unlocked.
pub struct STUSB4500Nvm<'a, I2C> {
    inner: &'a mut STUSB4500<I2C>,
}

impl<'a, I2C: I2cBus> STUSB4500Nvm<'a, I2C> {
    /// The driver as the session holds it now.
    pub closed spec fn driver(&self) -> STUSB4500<I2C> {
        *self.inner
    }

    /// The borrow of the driver that the session holds.
    pub closed spec fn borrow(&self) -> &'a mut STUSB4500<I2C> {
        self.inner
    }

    pub(crate) fn unlock(inner: &'a mut STUSB4500<I2C>) -> (r: Result<
        STUSB4500Nvm<'a, I2C>,
        Error<I2C::Error>,
    >)
        ensures
            r matches Ok(s) ==> {
                &&& s.driver().same_device(old(inner))
                &&& ran(old(inner).transfers(), s.driver().transfers(), unlock_plan(), Outcome::Done)
                &&& only_commands(old(inner).transfers(), s.driver().transfers())
                &&& *final(inner) == *final(s.borrow())
            },
            r is Err ==> {
                &&& r->Err_0 is I2CError
                &&& final(inner).same_device(old(inner))
                &&& ran(old(inner).transfers(), final(inner).transfers(), unlock_plan(), Outcome::Faulted)
                &&& only_commands(old(inner).transfers(), final(inner).transfers())
            },
    {
        let ghost t0 = inner.transfers();
        let ghost mut done: Seq<Seq<u8>> = seq![];
        proof {
            lemma_ran_start(t0);
            assert(NVM_CTRL0_POWER | NVM_CTRL0_ENABLE == 0xC0) by (bit_vector);
        }
        let ghost b = inner.transfers();
        let r = inner.write(Register::NvmPassword, NVM_PASSWORD);
        proof {
            lemma_ran_step(
                t0,
                b,
                inner.transfers(),
                done,
                seq![unlock_plan()[0]],
                unlock_plan().skip(1),
                outcome(r),
            );
            done = done + seq![unlock_plan()[0]];
        }
        if let Err(e) = r {
            proof {
                assert(done + unlock_plan().skip(1) =~= unlock_plan());
            }
            return Err(e);
        }
        let ghost b = inner.transfers();
        let r = inner.write(Register::NvmCtrl0, 0);
        proof {
            lemma_ran_step(
                t0,
                b,
                inner.transfers(),
                done,
                seq![unlock_plan()[1]],
                unlock_plan().skip(2),
                outcome(r),
            );
            done = done + seq![unlock_plan()[1]];
        }
        if let Err(e) = r {
            proof {
                assert(done + unlock_plan().skip(2) =~= unlock_plan());
            }
            return Err(e);
        }
        let ghost b = inner.transfers();
        let r = inner.write(Register::NvmCtrl0, NVM_CTRL0_POWER | NVM_CTRL0_ENABLE);
        proof {
            lemma_ran_step(
                t0,
                b,
                inner.transfers(),
                done,
                seq![unlock_plan()[2]],
                seq![],
                outcome(r),
            );
            done = done + seq![unlock_plan()[2]];
            assert(done =~= unlock_plan());
        }
        if let Err(e) = r {
            return Err(e);
        }
        Ok(STUSB4500Nvm { inner })
    }

    /// Locks the NVM again and ends the session; see `lock_plan`.
    pub fn lock(self) -> (r: Result<(), Error<I2C::Error>>)
        ensures
            final(self.borrow()).same_device(&self.driver()),
            ran(
                self.driver().transfers(),
                final(self.borrow()).transfers(),
                lock_plan(),
                outcome(r),
            ),
            only_commands(self.driver().transfers(), final(self.borrow()).transfers()),
            r is Err ==> r->Err_0 is I2CError,
    {
        let ghost t0 = self.inner.transfers();
        let ghost mut done: Seq<Seq<u8>> = seq![];
        proof {
            lemma_ran_start(t0);
        }
        let ghost b = self.inner.transfers();
        let r = self.inner.write(Register::NvmCtrl0, NVM_CTRL0_ENABLE);
        proof {
            lemma_ran_step(
                t0,
                b,
                self.inner.transfers(),
                done,
                seq![lock_plan()[0]],
                lock_plan().skip(1),
                outcome(r),
            );
            done = done + seq![lock_plan()[0]];
        }
        if r.is_err() {
            proof {
                assert(done + lock_plan().skip(1) =~= lock_plan());
            }
            return r;
        }
        let ghost b = self.inner.transfers();
        let r = self.inner.write(Register::NvmCtrl1, 0x00);
        proof {
            lemma_ran_step(
                t0,
                b,
                self.inner.transfers(),
                done,
                seq![lock_plan()[1]],
                lock_plan().skip(2),
                outcome(r),
            );
            done = done + seq![lock_plan()[1]];
        }
        if r.is_err() {
            proof {
                assert(done + lock_plan().skip(2) =~= lock_plan());
            }
            return r;
        }
        let ghost b = self.inner.transfers();
        let r = self.inner.write(Register::NvmPassword, 0x00);
        proof {
            lemma_ran_step(
                t0,
                b,
                self.inner.transfers(),
                done,
                seq![lock_plan()[2]],
                seq![],
                outcome(r),
            );
            done = done + seq![lock_plan()[2]];
            assert(done =~= lock_plan());
        }
        r
    }

    /// Requests the operation loaded in control register 1 on sector 0.
    fn issue_request(&mut self) -> (r: Result<(), Error<I2C::Error>>)
        ensures
            final(self).driver().same_device(&old(self).driver()),
            nvm_ran(
                old(self).driver().transfers(),
                final(self).driver().transfers(),
                seq![request_command(0)],
                outcome(r),
                false,
                old(self).driver().poll_limit() as nat,
            ),
            buffer_reads(final(self).driver().transfers()) == buffer_reads(old(self).driver().transfers()),
            r is Ok ==> final(self).driver().transfers().last().ok() && is_poll(
                final(self).driver().transfers().last(),
                false,
            ),
            r is Err ==> (r->Err_0 is I2CError || r->Err_0 is AcknowledgeTimeout),
    {
        self.issue_request_with_sector(0)
    }

    /// Requests the operation loaded in control register 1 on `sector`, then polls control
    /// register 0 until a read shows the request bit clear, giving up with `AcknowledgeTimeout`
    /// after the poll limit of reads that all show it set.
    fn issue_request_with_sector(&mut self, sector: u8) -> (r: Result<(), Error<I2C::Error>>)
        ensures
            final(self).driver().same_device(&old(self).driver()),
            nvm_ran(
                old(self).driver().transfers(),
                final(self).driver().transfers(),
                seq![request_command(sector)],
                outcome(r),
                false,
                old(self).driver().poll_limit() as nat,
            ),
            buffer_reads(final(self).driver().transfers()) == buffer_reads(old(self).driver().transfers()),
            r is Ok ==> final(self).driver().transfers().last().ok() && is_poll(
                final(self).driver().transfers().last(),
                false,
            ),
            r is Err ==> (r->Err_0 is I2CError || r->Err_0 is AcknowledgeTimeout),
    {
        let ghost t0 = self.inner.transfers();
        let ghost s = t0.len() as int;
        let r = self.inner.write(
            Register::NvmCtrl0,
            sector | NVM_CTRL0_POWER | NVM_CTRL0_ENABLE | NVM_CTRL0_REQUEST,
        );
        proof {
            assert(sector | NVM_CTRL0_POWER | NVM_CTRL0_ENABLE | NVM_CTRL0_REQUEST
                == sector | 0xD0) by (bit_vector);
            assert((sector | 0xD0u8) & 0x10u8 != 0) by (bit_vector);
            let l = self.inner.transfers();
            lemma_buffer_reads_push(t0, l.last());
            lemma_commands_push(t0, l.last());
            assert(l =~= t0.push(l.last()));
            assert(commands(l)[commands(t0).len() as int] == request_command(sector));
            assert(l.last()->Write_bytes == request_command(sector));
            assert(step_ok(l, s, s, false));
        }
        if r.is_err() {
            return r;
        }
        let limit = self.inner.nvm_poll_limit();
        let mut polls: u32 = 0;
        loop
            invariant
                self.inner.same_device(&old(self).driver()),
                t0 == old(self).driver().transfers(),
                s == t0.len(),
                limit == self.inner.poll_limit(),
                polls <= limit,
                ran(t0, self.inner.transfers(), seq![request_command(sector)], Outcome::Done),
                buffer_reads(self.inner.transfers()) == buffer_reads(t0),
                self.inner.transfers().len() == s + 1 + 2 * polls,
                is_request(self.inner.transfers()[s]),
                self.inner.transfers()[s].ok(),
                forall|k: int| 0 <= k < polls ==> #[trigger] busy_poll(self.inner.transfers(), s, k),
                polls_well(self.inner.transfers(), s, false),
                awaits_ack(self.inner.transfers().last()),
            decreases limit - polls,
        {
            if polls == limit {
                proof {
                    let l = self.inner.transfers();
                    assert(l.len() - 1 - 2 * (limit as nat) == s);
                    assert(timed_out(l, s, limit as nat));
                }
                return Err(Error::AcknowledgeTimeout);
            }
            let ghost b = self.inner.transfers();
            let v = self.inner.read(Register::NvmCtrl0);
            proof {
                let l = self.inner.transfers();
                lemma_read_ran(b, l, Register::NvmCtrl0, 1, v is Ok);
                lemma_buffer_reads_other(b, l, Register::NvmCtrl0, 1, v is Ok);
                lemma_ran_then(
                    t0,
                    b,
                    l,
                    seq![request_command(sector)],
                    seq![],
                    Outcome::Done,
                    outcome(v),
                );
                assert(seq![request_command(sector)] + seq![] =~= seq![request_command(sector)]);
                lemma_poll_appended(s, b, l, v is Ok);
                assert(l[s] == b[s]);
                assert forall|k: int| 0 <= k < polls implies #[trigger] busy_poll(l, s, k) by {
                    assert(busy_poll(b, s, k));
                    assert(l[s + 1 + 2 * k] == b[s + 1 + 2 * k]);
                    assert(l[s + 2 + 2 * k] == b[s + 2 + 2 * k]);
                }
                if v is Ok {
                    assert(l[b.len() as int] == l[s + 1 + 2 * polls]);
                    assert(l.last() == l[s + 2 + 2 * polls]);
                }
            }
            match v {
                Ok(value) => {
                    if value & NVM_CTRL0_REQUEST == 0 {
                        return Ok(());
                    }
                    proof {
                        assert(busy_poll(self.inner.transfers(), s, polls as int));
                    }
                },
                Err(e) => {
                    return Err(e);
                },
            }
            polls = polls + 1;
        }
    }

    /// Loads the sector erase register with all five sectors flagged, then erases them.
    fn erase_sectors(&mut self) -> (r: Result<(), Error<I2C::Error>>)
        ensures
            final(self).driver().same_device(&old(self).driver()),
            nvm_ran(
                old(self).driver().transfers(),
                final(self).driver().transfers(),
                erase_plan(),
                outcome(r),
                false,
                old(self).driver().poll_limit() as nat,
            ),
            r is Err ==> (r->Err_0 is I2CError || r->Err_0 is AcknowledgeTimeout),
    {
        proof {
            assert(0x02u8 | 0xF8u8 == 0xFAu8) by (bit_vector);
        }
        let ghost t0 = self.inner.transfers();
        let ghost mut done: Seq<Seq<u8>> = seq![];
        let ghost limit = self.inner.poll_limit() as nat;
        proof {
            lemma_nvm_start(t0, false, limit);
        }
        let ghost b = self.inner.transfers();
        let r = self.inner.write(
            Register::NvmCtrl1,
            NvmCtrl1Opcode::LoadSer.code() | NVM_CTRL1_ERASE_ALL,
        );
        proof {
            lemma_command_step(b, self.inner.transfers(), seq![erase_plan()[0]], outcome(r), limit);
            lemma_nvm_step(
                t0,
                b,
                self.inner.transfers(),
                done,
                seq![erase_plan()[0]],
                erase_plan().skip(1),
                outcome(r),
                false,
                false,
                limit,
            );
            done = done + seq![erase_plan()[0]];
        }
        if r.is_err() {
            proof {
                assert(done + erase_plan().skip(1) =~= erase_plan());
            }
            return r;
        }
        let ghost b = self.inner.transfers();
        let r = self.issue_request();
        proof {
            lemma_nvm_step(
                t0,
                b,
                self.inner.transfers(),
                done,
                seq![erase_plan()[1]],
                erase_plan().skip(2),
                outcome(r),
                false,
                false,
                limit,
            );
            done = done + seq![erase_plan()[1]];
        }
        if r.is_err() {
            proof {
                assert(done + erase_plan().skip(2) =~= erase_plan());
            }
            return r;
        }
        let ghost b = self.inner.transfers();
        let r = self.inner.write(Register::NvmCtrl1, NvmCtrl1Opcode::EraseSectors.code());
        proof {
            lemma_command_step(b, self.inner.transfers(), seq![erase_plan()[2]], outcome(r), limit);
            lemma_nvm_step(
                t0,
                b,
                self.inner.transfers(),
                done,
                seq![erase_plan()[2]],
                erase_plan().skip(3),
                outcome(r),
                false,
                false,
                limit,
            );
            done = done + seq![erase_plan()[2]];
        }
        if r.is_err() {
            proof {
                assert(done + erase_plan().skip(3) =~= erase_plan());
            }
            return r;
        }
        let ghost b = self.inner.transfers();
        let r = self.issue_request();
        proof {
            lemma_nvm_step(
                t0,
                b,
                self.inner.transfers(),
                done,
                seq![erase_plan()[3]],
                seq![],
                outcome(r),
                false,
                false,
                limit,
            );
            done = done + seq![erase_plan()[3]];
        }
        proof {
            assert(done =~= erase_plan());
        }
        r
    }

    /// Programs `data` into `sector`.
    fn write_sector(&mut self, sector: u8, data: &[u8; 8]) -> (r: Result<(), Error<I2C::Error>>)
        ensures
            final(self).driver().same_device(&old(self).driver()),
            nvm_ran(
                old(self).driver().transfers(),
                final(self).driver().transfers(),
                write_sector_plan(sector, data@),
                outcome(r),
                false,
                old(self).driver().poll_limit() as nat,
            ),
            r is Err ==> (r->Err_0 is I2CError || r->Err_0 is AcknowledgeTimeout),
    {
        let ghost t0 = self.inner.transfers();
        let ghost mut done: Seq<Seq<u8>> = seq![];
        let ghost limit = self.inner.poll_limit() as nat;
        proof {
            lemma_nvm_start(t0, false, limit);
        }
        let ghost b = self.inner.transfers();
        let r = self.inner.write_block(Register::RWBuffer, data);
        proof {
            lemma_command_step(
                b,
                self.inner.transfers(),
                seq![write_sector_plan(sector, data@)[0]],
                outcome(r),
                limit,
            );
            lemma_nvm_step(
                t0,
                b,
                self.inner.transfers(),
                done,
                seq![write_sector_plan(sector, data@)[0]],
                write_sector_plan(sector, data@).skip(1),
                outcome(r),
                false,
                false,
                limit,
            );
            done = done + seq![write_sector_plan(sector, data@)[0]];
        }
        if r.is_err() {
            proof {
                assert(done + write_sector_plan(sector, data@).skip(1)
                    =~= write_sector_plan(sector, data@));
            }
            return r;
        }
        let ghost b = self.inner.transfers();
        let r = self.inner.write(Register::NvmCtrl1, NvmCtrl1Opcode::LoadPlr.code());
        proof {
            lemma_command_step(
                b,
                self.inner.transfers(),
                seq![write_sector_plan(sector, data@)[1]],
                outcome(r),
                limit,
            );
            lemma_nvm_step(
                t0,
                b,
                self.inner.transfers(),
                done,
                seq![write_sector_plan(sector, data@)[1]],
                write_sector_plan(sector, data@).skip(2),
                outcome(r),
                false,
                false,
                limit,
            );
            done = done + seq![write_sector_plan(sector, data@)[1]];
        }
        if r.is_err() {
            proof {
                assert(done + write_sector_plan(sector, data@).skip(2)
                    =~= write_sector_plan(sector, data@));
            }
            return r;
        }
        let ghost b = self.inner.transfers();
        let r = self.issue_request();
        proof {
            lemma_nvm_step(
                t0,
                b,
                self.inner.transfers(),
                done,
                seq![write_sector_plan(sector, data@)[2]],
                write_sector_plan(sector, data@).skip(3),
                outcome(r),
                false,
                false,
                limit,
            );
            done = done + seq![write_sector_plan(sector, data@)[2]];
        }
        if r.is_err() {
            proof {
                assert(done + write_sector_plan(sector, data@).skip(3)
                    =~= write_sector_plan(sector, data@));
            }
            return r;
        }
        let ghost b = self.inner.transfers();
        let r = self.inner.write(Register::NvmCtrl1, NvmCtrl1Opcode::WriteSector.code());
        proof {
            lemma_command_step(
                b,
                self.inner.transfers(),
                seq![write_sector_plan(sector, data@)[3]],
                outcome(r),
                limit,
            );
            lemma_nvm_step(
                t0,
                b,
                self.inner.transfers(),
                done,
                seq![write_sector_plan(sector, data@)[3]],
                write_sector_plan(sector, data@).skip(4),
                outcome(r),
                false,
                false,
                limit,
            );
            done = done + seq![write_sector_plan(sector, data@)[3]];
        }
        if r.is_err() {
            proof {
                assert(done + write_sector_plan(sector, data@).skip(4)
                    =~= write_sector_plan(sector, data@));
            }
            return r;
        }
        let ghost b = self.inner.transfers();
        let r = self.issue_request_with_sector(sector);
        proof {
            lemma_nvm_step(
                t0,
                b,
                self.inner.transfers(),
                done,
                seq![write_sector_plan(sector, data@)[4]],
                seq![],
                outcome(r),
                false,
                false,
                limit,
            );
            done = done + seq![write_sector_plan(sector, data@)[4]];
        }
        proof {
            assert(done =~= write_sector_plan(sector, data@));
        }
        r
    }

    /// Reads `sector` through the sector buffer.
    fn read_sector(&mut self, sector: u8) -> (r: Result<[u8; 8], Error<I2C::Error>>)
        ensures
            final(self).driver().same_device(&old(self).driver()),
            nvm_ran(
                old(self).driver().transfers(),
                final(self).driver().transfers(),
                read_sector_plan(sector),
                outcome(r),
                true,
                old(self).driver().poll_limit() as nat,
            ),
            r matches Ok(b) ==> buffer_reads(final(self).driver().transfers()) == buffer_reads(
                old(self).driver().transfers(),
            ).push(b@),
            r is Ok ==> final(self).driver().transfers().last() is Read,
            r is Err ==> (r->Err_0 is I2CError || r->Err_0 is AcknowledgeTimeout),
    {
        let ghost t0 = self.inner.transfers();
        let ghost limit = self.inner.poll_limit() as nat;
        let ghost plan = read_sector_plan(sector);
        proof {
            lemma_nvm_start(t0, false, limit);
        }
        let r = self.inner.write(Register::NvmCtrl1, NvmCtrl1Opcode::ReadSector.code());
        proof {
            lemma_command_step(t0, self.inner.transfers(), seq![plan[0]], outcome(r), limit);
            lemma_nvm_step(
                t0,
                t0,
                self.inner.transfers(),
                seq![],
                seq![plan[0]],
                seq![plan[1]],
                outcome(r),
                false,
                false,
                limit,
            );
            assert(seq![] + seq![plan[0]] + seq![plan[1]] =~= plan);
            assert(seq![] + seq![plan[0]] =~= seq![plan[0]]);
            lemma_buffer_reads_push(t0, self.inner.transfers().last());
            assert(self.inner.transfers() =~= t0.push(self.inner.transfers().last()));
            lemma_polls_well_buffer(self.inner.transfers(), t0.len() as int);
        }
        match r {
            Ok(()) => {},
            Err(e) => {
                return Err(e);
            },
        }
        let ghost t1 = self.inner.transfers();
        let r = self.issue_request_with_sector(sector);
        proof {
            lemma_nvm_step(
                t0,
                t1,
                self.inner.transfers(),
                seq![plan[0]],
                seq![plan[1]],
                seq![],
                outcome(r),
                false,
                false,
                limit,
            );
            assert(seq![plan[0]] + seq![plan[1]] =~= plan);
            lemma_polls_well_buffer(self.inner.transfers(), t0.len() as int);
            if !(r is Ok) {
                assert(seq![plan[0]] + seq![plan[1]] + seq![] =~= plan);
            }
        }
        match r {
            Ok(()) => {},
            Err(e) => {
                return Err(e);
            },
        }
        let ghost t2 = self.inner.transfers();
        let mut buf = [0u8; 8];
        let r = self.inner.read_into(Register::RWBuffer, &mut buf);
        proof {
            let after = self.inner.transfers();
            lemma_read_ran(t2, after, Register::RWBuffer, 8, r is Ok);
            lemma_ran_step(t0, t2, after, plan, seq![], seq![], outcome(r));
            assert(plan + seq![] =~= plan);
            lemma_buffer_read_appended(t0.len() as int, t2, after, r is Ok);
            let w = after[t2.len() as int];
            lemma_buffer_reads_push(t2, w);
            if after.len() == t2.len() + 2 {
                lemma_buffer_reads_push(t2.push(w), after.last());
                assert(after =~= t2.push(w).push(after.last()));
            }
        }
        match r {
            Ok(()) => Ok(buf),
            Err(e) => Err(e),
        }
    }

    /// Reads all five sectors, in index order.
    pub fn read_sectors(&mut self) -> (r: Result<[[u8; 8]; 5], Error<I2C::Error>>)
        ensures
            final(self).driver().same_device(&old(self).driver()),
            nvm_ran(
                old(self).driver().transfers(),
                final(self).driver().transfers(),
                read_sectors_plan(5),
                outcome(r),
                true,
                old(self).driver().poll_limit() as nat,
            ),
            r matches Ok(b) ==> buffer_reads(final(self).driver().transfers()) == buffer_reads(
                old(self).driver().transfers(),
            ) + sectors_of(b),
            r is Err ==> (r->Err_0 is I2CError || r->Err_0 is AcknowledgeTimeout),
    {
        let ghost t0 = self.inner.transfers();
        let ghost r0 = buffer_reads(t0);
        let ghost limit = self.inner.poll_limit() as nat;
        proof {
            lemma_nvm_start(t0, true, limit);
        }
        let mut buf = [[0u8; 8]; 5];
        let mut i: usize = 0;
        while i < 5
            invariant
                0 <= i <= 5,
                self.driver().same_device(&old(self).driver()),
                t0 == old(self).driver().transfers(),
                limit == old(self).driver().poll_limit() as nat,
                r0 == buffer_reads(t0),
                nvm_ran(
                    t0,
                    self.inner.transfers(),
                    read_sectors_plan(i as nat),
                    Outcome::Done,
                    true,
                    limit,
                ),
                buffer_reads(self.inner.transfers()).len() == r0.len() + i,
                forall|j: int| 0 <= j < r0.len() ==> buffer_reads(self.inner.transfers())[j] == r0[j],
                forall|j: int| 0 <= j < i ==> buffer_reads(self.inner.transfers())[r0.len() + j] == buf[j]@,
            decreases 5 - i,
        {
            let ghost b = self.inner.transfers();
            let r = self.read_sector(i as u8);
            proof {
                lemma_nvm_step(
                    t0,
                    b,
                    self.inner.transfers(),
                    read_sectors_plan(i as nat),
                    read_sector_plan(i as u8),
                    read_sectors_plan(5).skip(read_sectors_plan((i + 1) as nat).len() as int),
                    outcome(r),
                    true,
                    true,
                    limit,
                );
                lemma_read_sectors_plan_split((i + 1) as nat, 5);
                assert(read_sectors_plan(i as nat) + read_sector_plan(i as u8)
                    == read_sectors_plan((i + 1) as nat));
            }
            match r {
                Ok(sector) => {
                    buf[i] = sector;
                },
                Err(e) => {
                    proof {
                        assert(read_sectors_plan((i + 1) as nat) + read_sectors_plan(5).skip(read_sectors_plan((i + 1) as nat).len() as int)
                            =~= read_sectors_plan(5));
                    }
                    return Err(e);
                },
            }
            i = i + 1;
        }
        proof {
            assert(buffer_reads(self.inner.transfers()) =~= r0 + sectors_of(buf));
        }
        Ok(buf)
    }

    /// Erases all five sectors, then programs them from `sectors` in index order. A failure
    /// stops the sequence where it happened: the sectors before it are programmed, the others
    /// are left erased.
    pub fn write_sectors(&mut self, sectors: [[u8; 8]; 5]) -> (r: Result<(), Error<I2C::Error>>)
        ensures
            final(self).driver().same_device(&old(self).driver()),
            nvm_ran(
                old(self).driver().transfers(),
                final(self).driver().transfers(),
                erase_plan() + program_plan(sectors_of(sectors), 5),
                outcome(r),
                false,
                old(self).driver().poll_limit() as nat,
            ),
            r is Err ==> (r->Err_0 is I2CError || r->Err_0 is AcknowledgeTimeout),
    {
        let ghost t0 = self.inner.transfers();
        let ghost whole = erase_plan() + program_plan(sectors_of(sectors), 5);
        let ghost limit = self.inner.poll_limit() as nat;
        proof {
            lemma_nvm_start(t0, false, limit);
        }
        let r = self.erase_sectors();
        proof {
            lemma_nvm_step(
                t0,
                t0,
                self.inner.transfers(),
                seq![],
                erase_plan(),
                program_plan(sectors_of(sectors), 5),
                outcome(r),
                false,
                false,
                limit,
            );
            assert(seq![] + erase_plan() =~= erase_plan());
        }
        if r.is_err() {
            return r;
        }
        let mut i: usize = 0;
        while i < 5
            invariant
                0 <= i <= 5,
                self.driver().same_device(&old(self).driver()),
                t0 == old(self).driver().transfers(),
                limit == old(self).driver().poll_limit() as nat,
                whole == erase_plan() + program_plan(sectors_of(sectors), 5),
                nvm_ran(
                    t0,
                    self.inner.transfers(),
                    erase_plan() + program_plan(sectors_of(sectors), i as nat),
                    Outcome::Done,
                    false,
                    limit,
                ),
            decreases 5 - i,
        {
            let ghost b = self.inner.transfers();
            let ghost done = erase_plan() + program_plan(sectors_of(sectors), i as nat);
            let ghost next = erase_plan() + program_plan(sectors_of(sectors), (i + 1) as nat);
            let r = self.write_sector(i as u8, &sectors[i]);
            proof {
                assert(sectors_of(sectors)[i as int] == sectors[i as int]@);
                lemma_program_plan_split(sectors_of(sectors), (i + 1) as nat, 5);
                assert(program_plan(sectors_of(sectors), i as nat) + write_sector_plan(i as u8, sectors[i as int]@)
                    == program_plan(sectors_of(sectors), (i + 1) as nat));
                assert(done + write_sector_plan(i as u8, sectors[i as int]@) =~= next);
                assert(whole =~= erase_plan() + (program_plan(sectors_of(sectors), (i + 1) as nat)
                    + program_plan(sectors_of(sectors), 5).skip(program_plan(sectors_of(sectors), (i + 1) as nat).len() as int)));
                lemma_nvm_step(
                    t0,
                    b,
                    self.inner.transfers(),
                    done,
                    write_sector_plan(i as u8, sectors[i as int]@),
                    whole.skip(next.len() as int),
                    outcome(r),
                    false,
                    false,
                    limit,
                );
                assert(next + whole.skip(next.len() as int) =~= whole);
            }
            if r.is_err() {
                return r;
            }
            i = i + 1;
        }
        Ok(())
    }
}

/// `read_sectors_plan(m)` is `read_sectors_plan(n)` followed by the rest, for `n <= m`.
proof fn lemma_read_sectors_plan_split(n: nat, m: nat)
    requires
        n <= m,
    ensures
        read_sectors_plan(n) + read_sectors_plan(m).skip(read_sectors_plan(n).len() as int)
            == read_sectors_plan(m),
    decreases m,
{
    let pn = read_sectors_plan(n);
    if n == m {
        assert(pn + pn.skip(pn.len() as int) =~= pn);
    } else {
        let pm1 = read_sectors_plan((m - 1) as nat);
        let x = read_sector_plan((m - 1) as u8);
        lemma_read_sectors_plan_split(n, (m - 1) as nat);
        assert(read_sectors_plan(m) == pm1 + x);
        assert((pm1 + x).skip(pn.len() as int) =~= pm1.skip(pn.len() as int) + x);
        assert(pn + (pm1.skip(pn.len() as int) + x) =~= (pn + pm1.skip(pn.len() as int)) + x);
    }
}

/// `program_plan(s, m)` is `program_plan(s, n)` followed by the rest, for `n <= m`.
proof fn lemma_program_plan_split(s: Seq<Seq<u8>>, n: nat, m: nat)
    requires
        n <= m,
    ensures
        program_plan(s, n) + program_plan(s, m).skip(program_plan(s, n).len() as int) == program_plan(
            s,
            m,
        ),
    decreases m,
{
    let pn = program_plan(s, n);
    if n == m {
        assert(pn + pn.skip(pn.len() as int) =~= pn);
    } else {
        let pm1 = program_plan(s, (m - 1) as nat);
        let x = write_sector_plan((m - 1) as u8, s[m - 1]);
        lemma_program_plan_split(s, n, (m - 1) as nat);
        assert(program_plan(s, m) == pm1 + x);
        assert((pm1 + x).skip(pn.len() as int) =~= pm1.skip(pn.len() as int) + x);
        assert(pn + (pm1.skip(pn.len() as int) + x) =~= (pn + pm1.skip(pn.len() as int)) + x);
    }
}

} // verus!
