//! What holds of the driver when the simulated chip is on the bus.
//!
//! Each law is proved twice. The `lemma_model_` form speaks of the chip's
//! model and of any traffic that the model answers. The `law_` form speaks of
//! [`RegisterAccess`] over a [`SimulatedChip`], before and after the driver
//! operations in question, and asks for nothing but what those operations
//! ensure.
use vstd::prelude::*;
use crate::access::{masked_write_run, merged, RegisterAccess};
use crate::channel::{pull_run, push_run};
use crate::command::{completion_flag, execute_run, wait_run, CompletionStatus};
use crate::error::Error;
use crate::fifo::FIFO_CAPACITY;
use crate::model::{lemma_level_answer, ChipModel};
use crate::register::{Command, Register};
use crate::sim::{lemma_simulated_run, SimulatedChip};
use crate::transport::{BusError, BusEvent};

verus! {

/// On the model: a masked write to a storage register followed by a read of
/// that register yields `(before & !mask) | (value & mask)`, where `before` is
/// what the register held, for every mask and every value. Nothing else in
/// the chip changes.
pub proof fn lemma_model_masked_write_then_read(
    chip: ChipModel,
    register: Register,
    mask: u8,
    value: u8,
    traffic: Seq<BusEvent>,
    result: Result<(), BusError>,
    read_back: BusEvent,
)
    requires
        chip.wf(),
        ChipModel::is_storage(register),
        masked_write_run(traffic, register, mask, value, result),
        chip.answers(traffic),
        read_back.reads(register),
        chip.after(traffic).accepts(read_back),
    ensures
        result is Ok,
        read_back.byte() == Some(merged(chip.regs[register.addr() as int], mask, value)),
        chip.after(traffic).regs == chip.regs.update(
            register.addr() as int,
            merged(chip.regs[register.addr() as int], mask, value),
        ),
        chip.after(traffic).fifo == chip.fifo,
{
    reveal_with_fuel(ChipModel::answers, 3);
    reveal_with_fuel(ChipModel::after, 3);
    assert(traffic.skip(1)[0] == traffic[1]);
}

/// On the model: a push that does not fit fails with [`Error::Overflow`] and
/// leaves the chip, its FIFO included, as it was; a push that fits succeeds
/// and appends the bytes.
pub proof fn lemma_model_push(
    chip: ChipModel,
    bytes: Seq<u8>,
    traffic: Seq<BusEvent>,
    result: Result<(), Error>,
)
    requires
        chip.wf(),
        push_run(traffic, bytes, result),
        chip.answers(traffic),
    ensures
        bytes.len() > FIFO_CAPACITY - chip.fifo.len() ==> result == Err::<(), Error>(
            Error::Overflow,
        ) && chip.after(traffic) == chip,
        bytes.len() <= FIFO_CAPACITY - chip.fifo.len() ==> result is Ok && chip.after(traffic) == (
        ChipModel { fifo: chip.fifo + bytes, ..chip }),
{
    lemma_level_answer(chip);
    let rest = traffic.skip(1);
    assert(traffic =~= seq![traffic[0]] + rest);
    chip.lemma_after_concat(seq![traffic[0]], rest);
    reveal_with_fuel(ChipModel::answers, 2);
    reveal_with_fuel(ChipModel::after, 2);
    assert(seq![traffic[0]].skip(1) =~= Seq::<BusEvent>::empty());
    if bytes.len() <= FIFO_CAPACITY - chip.fifo.len() {
        chip.lemma_burst(rest, bytes, result);
    } else {
        assert(rest =~= Seq::<BusEvent>::empty());
    }
}

/// On the model: a pull of more bytes than the FIFO holds fails with
/// [`Error::Underflow`] and leaves the chip as it was; any other pull returns
/// the oldest bytes, in order, and removes them.
pub proof fn lemma_model_pull(
    chip: ChipModel,
    count: nat,
    traffic: Seq<BusEvent>,
    result: Result<Seq<u8>, Error>,
)
    requires
        chip.wf(),
        pull_run(traffic, count, result),
        chip.answers(traffic),
    ensures
        count > chip.fifo.len() ==> result == Err::<Seq<u8>, Error>(Error::Underflow)
            && chip.after(traffic) == chip,
        count <= chip.fifo.len() ==> result == Ok::<Seq<u8>, Error>(chip.fifo.take(count as int))
            && chip.after(traffic) == (ChipModel { fifo: chip.fifo.skip(count as int), ..chip }),
{
    lemma_level_answer(chip);
    let rest = traffic.skip(1);
    assert(traffic =~= seq![traffic[0]] + rest);
    chip.lemma_after_concat(seq![traffic[0]], rest);
    reveal_with_fuel(ChipModel::answers, 2);
    reveal_with_fuel(ChipModel::after, 2);
    assert(seq![traffic[0]].skip(1) =~= Seq::<BusEvent>::empty());
    if count <= chip.fifo.len() {
        chip.lemma_drain(rest, count, result);
    } else {
        assert(rest =~= Seq::<BusEvent>::empty());
    }
}

/// On the model with an empty FIFO: a push of at most 64 bytes followed at
/// once by a pull of as many bytes returns the bytes that were pushed, and
/// leaves the chip as it was.
pub proof fn lemma_model_push_then_pull(
    chip: ChipModel,
    bytes: Seq<u8>,
    pushing: Seq<BusEvent>,
    pushed: Result<(), Error>,
    pulling: Seq<BusEvent>,
    pulled: Result<Seq<u8>, Error>,
)
    requires
        chip.wf(),
        chip.fifo.len() == 0,
        bytes.len() <= FIFO_CAPACITY,
        push_run(pushing, bytes, pushed),
        pull_run(pulling, bytes.len(), pulled),
        chip.answers(pushing + pulling),
    ensures
        pushed is Ok,
        pulled == Ok::<Seq<u8>, Error>(bytes),
        chip.after(pushing + pulling) == chip,
{
    chip.lemma_after_concat(pushing, pulling);
    lemma_model_push(chip, bytes, pushing, pushed);
    let full = chip.after(pushing);
    assert(chip.fifo + bytes =~= bytes);
    lemma_model_pull(full, bytes.len(), pulling, pulled);
    assert(bytes.take(bytes.len() as int) =~= bytes);
    assert(bytes.skip(bytes.len() as int) =~= chip.fifo);
}

/// Polls of *ComIrqReg* leave the model as it is, and each shows the flags
/// that the chip holds.
proof fn lemma_polls(chip: ChipModel, traffic: Seq<BusEvent>, polls: nat)
    requires
        chip.wf(),
        traffic.len() >= polls,
        forall|i: int| 0 <= i < polls ==> (#[trigger] traffic[i]).reads(Register::ComIrqReg),
        chip.answers(traffic),
    ensures
        forall|i: int|
            0 <= i < polls ==> (#[trigger] traffic[i]).byte() == Some(
                chip.regs[Register::ComIrqReg.addr() as int],
            ),
    decreases polls,
{
    if polls > 0 {
        let rest = traffic.skip(1);
        assert(traffic[0].reads(Register::ComIrqReg));
        assert forall|i: int| 0 <= i < polls - 1 implies (#[trigger] rest[i]).reads(
            Register::ComIrqReg,
        ) by {
            assert(rest[i] == traffic[i + 1]);
        }
        lemma_polls(chip.step(traffic[0]), rest, (polls - 1) as nat);
        assert forall|i: int| 0 <= i < polls implies (#[trigger] traffic[i]).byte() == Some(
            chip.regs[Register::ComIrqReg.addr() as int],
        ) by {
            if i > 0 {
                assert(traffic[i] == rest[i - 1]);
            }
        }
    }
}

/// A wait on a model that does not show the awaited flag ends in
/// [`CompletionStatus::Timeout`], after exactly `timeout` ticks.
proof fn lemma_wait_times_out(
    chip: ChipModel,
    flag: u8,
    timeout: u64,
    traffic: Seq<BusEvent>,
    ticks: nat,
    result: Result<CompletionStatus, Error>,
)
    requires
        chip.wf(),
        chip.regs[Register::ComIrqReg.addr() as int] & flag == 0,
        wait_run(traffic, ticks, flag, timeout, result),
        chip.answers(traffic),
    ensures
        result == Ok::<CompletionStatus, Error>(CompletionStatus::Timeout),
        ticks == timeout,
{
    lemma_polls(chip, traffic, ticks + 1);
    assert(traffic[ticks as int].byte() == Some(chip.regs[Register::ComIrqReg.addr() as int]));
}

/// On the model, which never raises an interrupt request by itself: a command
/// that announces its end with a flag that is not showing ends in
/// [`CompletionStatus::Timeout`], and does so after exactly `timeout` ticks,
/// not before and not later.
pub proof fn lemma_model_times_out(
    chip: ChipModel,
    command: Command,
    timeout: u64,
    traffic: Seq<BusEvent>,
    ticks: nat,
    result: Result<CompletionStatus, Error>,
)
    requires
        chip.wf(),
        completion_flag(command) is Some,
        chip.regs[Register::ComIrqReg.addr() as int] & completion_flag(command).unwrap() == 0,
        execute_run(traffic, ticks, command, timeout, result),
        chip.answers(traffic),
    ensures
        result == Ok::<CompletionStatus, Error>(CompletionStatus::Timeout),
        ticks == timeout,
{
    reveal(execute_run);
    let flag = completion_flag(command).unwrap();
    let code = command.code();
    assert(code & 0x0F == code) by (bit_vector)
        requires
            code <= 0x0F,
    ;
    let issued = chip.step(traffic[0]);
    let rest = traffic.skip(1);
    assert(chip.accepts(traffic[0]) && issued.answers(rest));
    assert(issued.regs == chip.regs.update(Register::CommandReg.addr() as int, code));
    if command == Command::Transceive {
        let read = issued.step(rest[0]);
        assert(issued.accepts(rest[0]) && read.answers(rest.skip(1)));
        assert(rest.skip(1)[0] == rest[1]);
        let started = read.step(rest[1]);
        assert(read.accepts(rest[1]) && started.answers(rest.skip(1).skip(1)));
        assert(rest.skip(1).skip(1) =~= rest.skip(2));
        lemma_wait_times_out(started, flag, timeout, rest.skip(2), ticks, result);
    } else {
        lemma_wait_times_out(issued, flag, timeout, rest, ticks, result);
    }
}

/// With the simulated chip on the bus, a masked write to a storage register
/// followed by a read of that register yields `(before & !mask) | (value &
/// mask)`, where `before` is what the register held, for every mask and every
/// value.
///
/// `before`, `written` and `read` are the access before the masked write,
/// after it, and after the read.
pub proof fn law_masked_write_then_read(
    before: RegisterAccess<SimulatedChip>,
    written: RegisterAccess<SimulatedChip>,
    read: RegisterAccess<SimulatedChip>,
    register: Register,
    mask: u8,
    value: u8,
    result: Result<(), BusError>,
    reply: Result<u8, BusError>,
)
    requires
        before.transport()@.wf(),
        ChipModel::is_storage(register),
        written.continues(&before),
        masked_write_run(written.since(&before), register, mask, value, result),
        read.continues(&written),
        read.history() == written.history().push(BusEvent::read_of(register, reply)),
    ensures
        result is Ok,
        reply == Ok::<u8, BusError>(
            merged(before.transport()@.regs[register.addr() as int], mask, value),
        ),
{
    let chip = before.transport()@;
    lemma_simulated_run(before.transport(), written.since(&before), written.transport());
    lemma_simulated_run(written.transport(), read.since(&written), read.transport());
    let read_back = BusEvent::read_of(register, reply);
    assert(read.since(&written) =~= seq![read_back]);
    reveal_with_fuel(ChipModel::answers, 2);
    lemma_model_masked_write_then_read(
        chip,
        register,
        mask,
        value,
        written.since(&before),
        result,
        read_back,
    );
}

/// With the simulated chip on the bus and its FIFO empty, a push of at most
/// 64 bytes followed at once by a pull of as many bytes returns the bytes
/// that were pushed.
///
/// `before`, `pushed_at` and `pulled_at` are the access before the push, after
/// it, and after the pull.
pub proof fn law_push_then_pull(
    before: RegisterAccess<SimulatedChip>,
    pushed_at: RegisterAccess<SimulatedChip>,
    pulled_at: RegisterAccess<SimulatedChip>,
    bytes: Seq<u8>,
    pushed: Result<(), Error>,
    pulled: Result<Seq<u8>, Error>,
)
    requires
        before.transport()@.wf(),
        before.transport()@.fifo.len() == 0,
        bytes.len() <= FIFO_CAPACITY,
        pushed_at.continues(&before),
        push_run(pushed_at.since(&before), bytes, pushed),
        pulled_at.continues(&pushed_at),
        pull_run(pulled_at.since(&pushed_at), bytes.len(), pulled),
    ensures
        pushed is Ok,
        pulled == Ok::<Seq<u8>, Error>(bytes),
        pulled_at.transport()@ == before.transport()@,
{
    pulled_at.lemma_since_concat(&before, &pushed_at);
    lemma_simulated_run(before.transport(), pulled_at.since(&before), pulled_at.transport());
    lemma_model_push_then_pull(
        before.transport()@,
        bytes,
        pushed_at.since(&before),
        pushed,
        pulled_at.since(&pushed_at),
        pulled,
    );
}

/// With the simulated chip on the bus, a push of more bytes than the FIFO has
/// room for fails with [`Error::Overflow`] and leaves the chip, its FIFO
/// included, exactly as it was; any other push succeeds and appends the
/// bytes.
pub proof fn law_push(
    before: RegisterAccess<SimulatedChip>,
    after: RegisterAccess<SimulatedChip>,
    bytes: Seq<u8>,
    result: Result<(), Error>,
)
    requires
        before.transport()@.wf(),
        after.continues(&before),
        push_run(after.since(&before), bytes, result),
    ensures
        bytes.len() > FIFO_CAPACITY - before.transport()@.fifo.len() ==> result == Err::<
            (),
            Error,
        >(Error::Overflow) && after.transport()@ == before.transport()@,
        bytes.len() <= FIFO_CAPACITY - before.transport()@.fifo.len() ==> result is Ok
            && after.transport()@ == (ChipModel {
            fifo: before.transport()@.fifo + bytes,
            ..before.transport()@
        }),
{
    lemma_simulated_run(before.transport(), after.since(&before), after.transport());
    lemma_model_push(before.transport()@, bytes, after.since(&before), result);
}

/// With the simulated chip on the bus, a pull of more bytes than the FIFO
/// holds fails with [`Error::Underflow`] and leaves the chip exactly as it
/// was; any other pull returns the oldest bytes, in order, and removes them.
pub proof fn law_pull(
    before: RegisterAccess<SimulatedChip>,
    after: RegisterAccess<SimulatedChip>,
    count: nat,
    result: Result<Seq<u8>, Error>,
)
    requires
        before.transport()@.wf(),
        after.continues(&before),
        pull_run(after.since(&before), count, result),
    ensures
        count > before.transport()@.fifo.len() ==> result == Err::<Seq<u8>, Error>(
            Error::Underflow,
        ) && after.transport()@ == before.transport()@,
        count <= before.transport()@.fifo.len() ==> result == Ok::<Seq<u8>, Error>(
            before.transport()@.fifo.take(count as int),
        ) && after.transport()@ == (ChipModel {
            fifo: before.transport()@.fifo.skip(count as int),
            ..before.transport()@
        }),
{
    lemma_simulated_run(before.transport(), after.since(&before), after.transport());
    lemma_model_pull(before.transport()@, count, after.since(&before), result);
}

/// With the simulated chip on the bus, a command that announces its end with
/// a flag that is not showing ends in [`CompletionStatus::Timeout`] after
/// exactly `timeout` ticks, whatever the timeout: the simulated chip never
/// raises an interrupt request by itself.
///
/// `ticks` is the number of ticks that the executor waited for during the
/// command.
pub proof fn law_timeout(
    before: RegisterAccess<SimulatedChip>,
    after: RegisterAccess<SimulatedChip>,
    command: Command,
    timeout: u64,
    ticks: nat,
    result: Result<CompletionStatus, Error>,
)
    requires
        before.transport()@.wf(),
        completion_flag(command) is Some,
        before.transport()@.regs[Register::ComIrqReg.addr() as int] & completion_flag(
            command,
        ).unwrap() == 0,
        after.continues(&before),
        execute_run(after.since(&before), ticks, command, timeout, result),
    ensures
        result == Ok::<CompletionStatus, Error>(CompletionStatus::Timeout),
        ticks == timeout,
{
    lemma_simulated_run(before.transport(), after.since(&before), after.transport());
    lemma_model_times_out(
        before.transport()@,
        command,
        timeout,
        after.since(&before),
        ticks,
        result,
    );
}

} // verus!
