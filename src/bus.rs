//! The two-wire bus the driver talks through, and the record of what the driver handed to it.
use vstd::prelude::*;

verus! {

/// A blocking two-wire bus: one write transaction and one read transaction, both addressed to a
/// 7-bit device address. The host platform implements it.
pub trait I2cBus {
    type Error;

    /// Writes `bytes` to the device at `address` in one transaction.
    fn write(&mut self, address: u8, bytes: &[u8]) -> Result<(), Self::Error>;

    /// Reads `buffer.len()` bytes from the device at `address` in one transaction.
    fn read(&mut self, address: u8, buffer: &mut [u8]) -> Result<(), Self::Error>;
}

/// One bus transaction issued by the driver: the device address, the bytes, and whether the bus
/// reported success.
pub enum Transfer {
    /// The bytes handed to `I2cBus::write`.
    Write { address: u8, bytes: Seq<u8>, ok: bool },
    /// The contents of the buffer handed to `I2cBus::read`, after the call.
    Read { address: u8, bytes: Seq<u8>, ok: bool },
}

impl Transfer {
    pub open spec fn address(self) -> u8 {
        match self {
            Transfer::Write { address, .. } => address,
            Transfer::Read { address, .. } => address,
        }
    }

    pub open spec fn ok(self) -> bool {
        match self {
            Transfer::Write { ok, .. } => ok,
            Transfer::Read { ok, .. } => ok,
        }
    }

    /// A write that carries data: a register address followed by at least one byte.
    pub open spec fn is_command(self) -> bool {
        &&& self is Write
        &&& self->Write_bytes.len() >= 2
    }
}

/// The data-carrying register writes of `log`, in the order they were issued. Writes that only
/// select a register before a read are left out.
pub open spec fn commands(log: Seq<Transfer>) -> Seq<Seq<u8>>
    decreases log.len(),
{
    if log.len() == 0 {
        Seq::empty()
    } else if log.last().is_command() {
        commands(log.drop_last()).push(log.last()->Write_bytes)
    } else {
        commands(log.drop_last())
    }
}

/// `a` is a prefix of `b`.
pub open spec fn is_prefix<T>(a: Seq<T>, b: Seq<T>) -> bool {
    &&& a.len() <= b.len()
    &&& forall|i: int| 0 <= i < a.len() ==> a[i] == b[i]
}

/// Every transfer of `log` from index `start` on succeeded.
pub open spec fn all_ok_from(log: Seq<Transfer>, start: int) -> bool {
    forall|i: int| start <= i < log.len() ==> log[i].ok()
}

/// `log` holds at least one transfer from index `start` on; the last one failed and every other
/// one from `start` on succeeded.
pub open spec fn failed_last_from(log: Seq<Transfer>, start: int) -> bool {
    &&& start < log.len()
    &&& !log.last().ok()
    &&& forall|i: int| start <= i < log.len() - 1 ==> log[i].ok()
}

/// Every transfer of `after` past the length of `before` is a command: no read, and no write
/// that only selects a register.
pub open spec fn only_commands(before: Seq<Transfer>, after: Seq<Transfer>) -> bool {
    forall|i: int| before.len() <= i < after.len() ==> (#[trigger] after[i]).is_command()
}

/// The bytes of each transfer of `log`, which are writes.
pub open spec fn written(log: Seq<Transfer>) -> Seq<Seq<u8>> {
    log.map_values(|t: Transfer| t->Write_bytes)
}

/// Where every new transfer is a command, the new commands are the new transfers' bytes.
pub proof fn lemma_only_commands(before: Seq<Transfer>, after: Seq<Transfer>)
    requires
        is_prefix(before, after),
        only_commands(before, after),
    ensures
        commands(after) == commands(before) + written(after.skip(before.len() as int)),
    decreases after.len(),
{
    if after.len() == before.len() {
        assert(after =~= before);
        assert(commands(before) + written(after.skip(before.len() as int)) =~= commands(before));
    } else {
        let prev = after.drop_last();
        lemma_only_commands(before, prev);
        assert(written(after.skip(before.len() as int)) =~= written(prev.skip(before.len() as int)).push(
            after.last()->Write_bytes,
        ));
        assert(commands(after) == commands(prev).push(after.last()->Write_bytes));
        assert(commands(before) + written(prev.skip(before.len() as int)).push(after.last()->Write_bytes)
            =~= (commands(before) + written(prev.skip(before.len() as int))).push(after.last()->Write_bytes));
    }
}

/// How a sequence of bus transfers ended.
pub enum Outcome {
    /// Every transfer succeeded and the sequence ran to its end.
    Done,
    /// A transfer failed, and nothing was issued after it.
    Faulted,
    /// Every transfer succeeded, but the sequence stopped early: the controller did not
    /// acknowledge a request in time.
    Stopped,
}

/// Going from `before` to `after`, the driver issued the register writes `plan` in order, with
/// no other data-carrying write, and ended as `outcome` says. Only `Done` issues the whole plan;
/// otherwise a prefix of it was issued.
pub open spec fn ran(
    before: Seq<Transfer>,
    after: Seq<Transfer>,
    plan: Seq<Seq<u8>>,
    outcome: Outcome,
) -> bool {
    &&& is_prefix(before, after)
    &&& match outcome {
        Outcome::Done => {
            &&& all_ok_from(after, before.len() as int)
            &&& commands(after) == commands(before) + plan
        },
        Outcome::Faulted => {
            &&& failed_last_from(after, before.len() as int)
            &&& is_prefix(commands(after), commands(before) + plan)
        },
        Outcome::Stopped => {
            &&& all_ok_from(after, before.len() as int)
            &&& is_prefix(commands(after), commands(before) + plan)
        },
    }
}

/// Commands only grow as the log grows.
pub proof fn lemma_commands_prefix(a: Seq<Transfer>, b: Seq<Transfer>)
    requires
        is_prefix(a, b),
    ensures
        is_prefix(commands(a), commands(b)),
    decreases b.len(),
{
    if a.len() < b.len() {
        assert(is_prefix(a, b.drop_last()));
        lemma_commands_prefix(a, b.drop_last());
    } else {
        assert(a =~= b);
    }
}

/// Appending a transfer that is not a command leaves the commands as they were.
pub proof fn lemma_commands_push(log: Seq<Transfer>, t: Transfer)
    ensures
        commands(log.push(t)) == if t.is_command() {
            commands(log).push(t->Write_bytes)
        } else {
            commands(log)
        },
{
    assert(log.push(t).drop_last() =~= log);
}

/// Running `p` from `a` to `b` and then `q` from `b` to `c` runs `p + q` from `a` to `c`; a
/// first step that does not finish ends the run there.
pub proof fn lemma_ran_then(
    a: Seq<Transfer>,
    b: Seq<Transfer>,
    c: Seq<Transfer>,
    p: Seq<Seq<u8>>,
    q: Seq<Seq<u8>>,
    o1: Outcome,
    o2: Outcome,
)
    requires
        ran(a, b, p, o1),
        o1 is Done ==> ran(b, c, q, o2),
        !(o1 is Done) ==> c == b,
    ensures
        ran(a, c, p + q, if o1 is Done { o2 } else { o1 }),
{
    lemma_commands_prefix(a, b);
    if o1 is Done {
        assert(commands(a) + (p + q) =~= commands(a) + p + q);
    }
}

/// A run that has issued nothing yet.
pub proof fn lemma_ran_start(log: Seq<Transfer>)
    ensures
        ran(log, log, seq![], Outcome::Done),
{
    assert(commands(log) + seq![] =~= commands(log));
}

/// One more step of a run: having run `done` from `start` to `mid`, running `step` from `mid` to
/// `end` runs `done + step`; a step that does not finish ends the whole run, whatever `rest` was
/// still to come.
pub proof fn lemma_ran_step(
    start: Seq<Transfer>,
    mid: Seq<Transfer>,
    end: Seq<Transfer>,
    done: Seq<Seq<u8>>,
    step: Seq<Seq<u8>>,
    rest: Seq<Seq<u8>>,
    o: Outcome,
)
    requires
        ran(start, mid, done, Outcome::Done),
        ran(mid, end, step, o),
    ensures
        ran(start, end, done + step, o),
        !(o is Done) ==> ran(start, end, done + step + rest, o),
{
    lemma_ran_then(start, mid, end, done, step, Outcome::Done, o);
    if !(o is Done) {
        let full = commands(start) + (done + step);
        assert(forall|i: int| 0 <= i < full.len() ==> full[i]
            == (commands(start) + (done + step + rest))[i]);
    }
}

} // verus!
