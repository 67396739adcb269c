//! Command execution: writing a command to *CommandReg* and waiting for the
//! chip to finish it.
//!
//! [`CommandExecutor`] owns the clock and keeps track of the command that is
//! in effect on the chip. After a soft reset it refuses every further command
//! until the chip has been seen to come up again.
use vstd::prelude::*;
use crate::access::{merge_masked, merged, RegisterAccess};
use crate::error::Error;
use crate::register::{
    Command, Register, ERROR_MASK, FLUSH_BUFFER, IDLE_IRQ, POWER_DOWN, RX_IRQ, START_SEND, TX_IRQ,
};
use crate::transport::{BusEvent, BusTransport, Clock};

verus! {

/// The command that is in effect on the chip.
///
/// There is one state for every command but [`Command::NoCmdChange`], which
/// leaves the command in effect as it is.
#[derive(Debug, Clone, Copy, PartialEq, Eq, Structural)]
pub enum ExecutorState {
    /// No command is active.
    Idle,
    /// The chip is storing bytes into its internal buffer.
    Mem,
    /// The chip is generating a random identifier.
    GenerateRandomId,
    /// The CRC coprocessor is running.
    CalcCRC,
    /// The chip is transmitting.
    Transmit,
    /// The receiver is active.
    Receive,
    /// The chip is transmitting or waiting for the response.
    Transceive,
    /// The chip is performing an authentication.
    MFAuthent,
    /// The chip was reset and has not been seen to come up again.
    SoftReset,
}

/// How the wait for a command ended.
#[derive(Debug, Clone, Copy, PartialEq, Eq, Structural)]
pub enum CompletionStatus {
    /// The command finished and the chip reported no error.
    Completed,
    /// The chip did not finish the command within the timeout.
    Timeout,
    /// The command finished and the chip reported the error bits held here,
    /// as *ErrorReg* showed them.
    ChipError(u8),
}

/// The state that `command` puts the executor in, when it is written while
/// the executor is in `state`: a new command supersedes whatever was in
/// effect, and [`Command::NoCmdChange`] changes nothing.
pub open spec fn next_state(state: ExecutorState, command: Command) -> ExecutorState {
    match command {
        Command::Idle => ExecutorState::Idle,
        Command::Mem => ExecutorState::Mem,
        Command::GenerateRandomId => ExecutorState::GenerateRandomId,
        Command::CalcCRC => ExecutorState::CalcCRC,
        Command::Transmit => ExecutorState::Transmit,
        Command::NoCmdChange => state,
        Command::Receive => ExecutorState::Receive,
        Command::Transceive => ExecutorState::Transceive,
        Command::MFAuthent => ExecutorState::MFAuthent,
        Command::SoftReset => ExecutorState::SoftReset,
    }
}

/// The interrupt request bit of *ComIrqReg* that tells that `command` has
/// finished, or `None` for a command that takes effect with the write.
pub open spec fn completion_flag(command: Command) -> Option<u8> {
    match command {
        Command::Transceive | Command::Receive => Some(RX_IRQ),
        Command::Transmit => Some(TX_IRQ),
        Command::Mem | Command::GenerateRandomId | Command::CalcCRC | Command::MFAuthent => Some(
            IDLE_IRQ,
        ),
        Command::Idle | Command::NoCmdChange | Command::SoftReset => None,
    }
}

/// What a value of *ErrorReg*, read after a command has finished, says of it.
pub open spec fn verdict(error: u8) -> CompletionStatus {
    if error & ERROR_MASK == 0 {
        CompletionStatus::Completed
    } else {
        CompletionStatus::ChipError(error & ERROR_MASK)
    }
}

/// Computes [`next_state`].
pub fn transition(state: ExecutorState, command: Command) -> (next: ExecutorState)
    ensures
        next == next_state(state, command),
{
    match command {
        Command::Idle => ExecutorState::Idle,
        Command::Mem => ExecutorState::Mem,
        Command::GenerateRandomId => ExecutorState::GenerateRandomId,
        Command::CalcCRC => ExecutorState::CalcCRC,
        Command::Transmit => ExecutorState::Transmit,
        Command::NoCmdChange => state,
        Command::Receive => ExecutorState::Receive,
        Command::Transceive => ExecutorState::Transceive,
        Command::MFAuthent => ExecutorState::MFAuthent,
        Command::SoftReset => ExecutorState::SoftReset,
    }
}

/// Computes [`completion_flag`].
pub fn completion_irq(command: Command) -> (flag: Option<u8>)
    ensures
        flag == completion_flag(command),
{
    match command {
        Command::Transceive | Command::Receive => Some(RX_IRQ),
        Command::Transmit => Some(TX_IRQ),
        Command::Mem | Command::GenerateRandomId | Command::CalcCRC | Command::MFAuthent => Some(
            IDLE_IRQ,
        ),
        Command::Idle | Command::NoCmdChange | Command::SoftReset => None,
    }
}

/// Computes [`verdict`].
pub fn classify(error: u8) -> (status: CompletionStatus)
    ensures
        status == verdict(error),
{
    let bits = error & ERROR_MASK;
    if bits == 0 {
        CompletionStatus::Completed
    } else {
        CompletionStatus::ChipError(bits)
    }
}

/// The wait for a command to finish, as it shows on the bus and on the
/// clock.
///
/// *ComIrqReg* is polled once, and once more after each tick, until `flag`
/// shows, a transfer fails or `timeout` ticks have passed. So with `ticks`
/// ticks waited there are `ticks + 1` polls. If `flag` shows, *ErrorReg* is
/// read and decides the result.
pub open spec fn wait_run(
    traffic: Seq<BusEvent>,
    ticks: nat,
    flag: u8,
    timeout: u64,
    result: Result<CompletionStatus, Error>,
) -> bool {
    let polls = ticks + 1;
    &&& ticks <= timeout
    &&& traffic.len() >= polls
    &&& forall|i: int| 0 <= i < polls ==> (#[trigger] traffic[i]).reads(Register::ComIrqReg)
    &&& forall|i: int|
        0 <= i < polls - 1 ==> (#[trigger] traffic[i]).byte() is Some && traffic[i].byte().unwrap()
            & flag == 0
    &&& match traffic[polls - 1].byte() {
        None => {
            &&& traffic.len() == polls
            &&& traffic[polls - 1].failure() is Some
            &&& result == Err::<CompletionStatus, Error>(
                Error::Bus(traffic[polls - 1].failure().unwrap()),
            )
        },
        Some(flags) => if flags & flag != 0 {
            &&& traffic.len() == polls + 1
            &&& traffic[polls as int].reads(Register::ErrorReg)
            &&& match traffic[polls as int].byte() {
                None => traffic[polls as int].failure() is Some && result == Err::<
                    CompletionStatus,
                    Error,
                >(Error::Bus(traffic[polls as int].failure().unwrap())),
                Some(error) => result == Ok::<CompletionStatus, Error>(verdict(error)),
            }
        } else {
            &&& ticks == timeout
            &&& traffic.len() == polls
            &&& result == Ok::<CompletionStatus, Error>(CompletionStatus::Timeout)
        },
    }
}

/// What follows the write of a command, as it shows on the bus and on the
/// clock: for a transceive, the start of the transmission by a masked write
/// of [`START_SEND`] to *BitFramingReg*; then, for a command that announces
/// its end, the wait for it.
pub open spec fn follow_up_run(
    traffic: Seq<BusEvent>,
    ticks: nat,
    command: Command,
    timeout: u64,
    result: Result<CompletionStatus, Error>,
) -> bool {
    if command == Command::Transceive {
        &&& traffic.len() >= 1
        &&& traffic[0].reads(Register::BitFramingReg)
        &&& match traffic[0].byte() {
            None => {
                &&& traffic.len() == 1
                &&& ticks == 0
                &&& traffic[0].failure() is Some
                &&& result == Err::<CompletionStatus, Error>(
                    Error::Bus(traffic[0].failure().unwrap()),
                )
            },
            Some(framing) => {
                &&& traffic.len() >= 2
                &&& traffic[1].writes(
                    Register::BitFramingReg,
                    merged(framing, START_SEND, START_SEND),
                )
                &&& match traffic[1].failure() {
                    Some(e) => traffic.len() == 2 && ticks == 0 && result == Err::<
                        CompletionStatus,
                        Error,
                    >(Error::Bus(e)),
                    None => wait_run(traffic.skip(2), ticks, RX_IRQ, timeout, result),
                }
            },
        }
    } else {
        match completion_flag(command) {
            None => traffic.len() == 0 && ticks == 0 && result == Ok::<CompletionStatus, Error>(
                CompletionStatus::Completed,
            ),
            Some(flag) => wait_run(traffic, ticks, flag, timeout, result),
        }
    }
}

/// Whether `prelude` is the acknowledged write of `command` to *CommandReg*,
/// followed, for a transceive, by the acknowledged start of the transmission.
spec fn issued_run(prelude: Seq<BusEvent>, command: Command) -> bool {
    &&& prelude.len() >= 1
    &&& prelude[0].writes(Register::CommandReg, command.code())
    &&& prelude[0].failure() is None
    &&& if command == Command::Transceive {
        &&& prelude.len() == 3
        &&& prelude[1].reads(Register::BitFramingReg)
        &&& prelude[1].byte() is Some
        &&& prelude[2].writes(
            Register::BitFramingReg,
            merged(prelude[1].byte().unwrap(), START_SEND, START_SEND),
        )
        &&& prelude[2].failure() is None
    } else {
        prelude.len() == 1
    }
}

/// What [`CommandExecutor::execute`] puts on the bus, how long it waits and
/// what it returns, when no reset is pending: the write of the opcode to
/// *CommandReg* and, if that is acknowledged, what [`follow_up_run`] says.
#[verifier::opaque]
pub open spec fn execute_run(
    traffic: Seq<BusEvent>,
    ticks: nat,
    command: Command,
    timeout: u64,
    result: Result<CompletionStatus, Error>,
) -> bool {
    &&& traffic.len() >= 1
    &&& traffic[0].writes(Register::CommandReg, command.code())
    &&& match traffic[0].failure() {
        Some(e) => traffic.len() == 1 && ticks == 0 && result == Err::<CompletionStatus, Error>(
            Error::Bus(e),
        ),
        None => follow_up_run(traffic.skip(1), ticks, command, timeout, result),
    }
}

/// What [`CommandExecutor::poll_power_up`] puts on the bus and returns while a
/// reset is pending: one read of *CommandReg*, which shows whether the chip is
/// still powered down.
pub open spec fn power_up_run(traffic: Seq<BusEvent>, result: Result<bool, Error>) -> bool {
    &&& traffic.len() == 1
    &&& traffic[0].reads(Register::CommandReg)
    &&& match traffic[0].byte() {
        None => traffic[0].failure() is Some && result == Err::<bool, Error>(
            Error::Bus(traffic[0].failure().unwrap()),
        ),
        Some(value) => result == Ok::<bool, Error>(value & POWER_DOWN == 0),
    }
}

/// What [`CommandExecutor::cancel`] puts on the bus and returns when no reset
/// is pending: the write of [`Command::Idle`] to *CommandReg* and, if that is
/// acknowledged, the flush of the FIFO.
pub open spec fn cancel_run(traffic: Seq<BusEvent>, result: Result<(), Error>) -> bool {
    &&& traffic.len() >= 1
    &&& traffic[0].writes(Register::CommandReg, Command::Idle.code())
    &&& match traffic[0].failure() {
        Some(e) => traffic.len() == 1 && result == Err::<(), Error>(Error::Bus(e)),
        None => {
            &&& traffic.len() == 2
            &&& traffic[1].writes(Register::FIFOLevelReg, FLUSH_BUFFER)
            &&& result == match traffic[1].failure() {
                Some(e) => Err::<(), Error>(Error::Bus(e)),
                None => Ok::<(), Error>(()),
            }
        },
    }
}

/// A wait never ends early: a command that ends in
/// [`CompletionStatus::Timeout`] has waited for exactly `timeout` ticks, has
/// polled once more than that, and no poll has shown its flag.
pub proof fn lemma_timeout_is_exact(
    traffic: Seq<BusEvent>,
    ticks: nat,
    command: Command,
    timeout: u64,
    result: Result<CompletionStatus, Error>,
)
    requires
        execute_run(traffic, ticks, command, timeout, result),
        result == Ok::<CompletionStatus, Error>(CompletionStatus::Timeout),
    ensures
        ticks == timeout,
        completion_flag(command) is Some,
        traffic.len() == timeout + if command == Command::Transceive {
            4int
        } else {
            2int
        },
        forall|i: int|
            traffic.len() - timeout - 1 <= i < traffic.len() ==> (#[trigger] traffic[i]).reads(
                Register::ComIrqReg,
            ) && traffic[i].byte() is Some && traffic[i].byte().unwrap() & completion_flag(
                command,
            ).unwrap() == 0,
{
    reveal(execute_run);
    let lead: int = if command == Command::Transceive {
        3
    } else {
        1
    };
    let tail = traffic.skip(lead);
    if command == Command::Transceive {
        assert(traffic.skip(1).skip(2) =~= tail);
    }
    assert(wait_run(tail, ticks, completion_flag(command).unwrap(), timeout, result));
    assert forall|i: int| traffic.len() - timeout - 1 <= i < traffic.len() implies (
    #[trigger] traffic[i]).reads(Register::ComIrqReg) && traffic[i].byte() is Some
        && traffic[i].byte().unwrap() & completion_flag(command).unwrap() == 0 by {
        assert(traffic[i] == tail[i - lead]);
    }
}

/// Issues commands to the chip and waits for them to finish.
pub struct CommandExecutor<C: Clock> {
    clock: C,
    state: ExecutorState,
    waited: Ghost<nat>,
}

impl<C: Clock> CommandExecutor<C> {
    /// The command in effect.
    pub closed spec fn state(&self) -> ExecutorState {
        self.state
    }

    /// The number of ticks that this executor has waited, all commands
    /// together.
    pub closed spec fn ticks(&self) -> nat {
        self.waited@
    }

    /// The clock that paces this executor.
    pub closed spec fn timer(&self) -> C {
        self.clock
    }

    /// An executor for a chip on which no command is active.
    pub fn new(clock: C) -> (executor: Self)
        ensures
            executor.state() == ExecutorState::Idle,
            executor.ticks() == 0,
            executor.timer() == clock,
    {
        CommandExecutor { clock, state: ExecutorState::Idle, waited: Ghost(0) }
    }

    /// The command in effect.
    pub fn current(&self) -> (state: ExecutorState)
        ensures
            state == self.state(),
    {
        self.state
    }

    /// Looks at the clock without using it.
    pub fn clock(&self) -> (clock: &C)
        ensures
            *clock == self.timer(),
    {
        &self.clock
    }

    /// Gives the clock back.
    pub fn release(self) -> (clock: C)
        ensures
            clock == self.timer(),
    {
        self.clock
    }

    /// Writes `command` to *CommandReg* and waits until the chip has finished
    /// it, for at most `timeout` ticks.
    ///
    /// While a reset is pending the command is refused with
    /// [`Error::ResetPending`], and nothing goes over the bus. Otherwise
    /// [`execute_run`] says what is done and returned. The executor moves to
    /// [`next_state`] as soon as the chip has acknowledged the write of the
    /// command, whatever follows.
    pub fn execute<B: BusTransport>(
        &mut self,
        access: &mut RegisterAccess<B>,
        command: Command,
        timeout: u64,
    ) -> (result: Result<CompletionStatus, Error>)
        ensures
            final(access).continues(old(access)),
            final(self).ticks() >= old(self).ticks(),
            old(self).state() == ExecutorState::SoftReset ==> {
                &&& result == Err::<CompletionStatus, Error>(Error::ResetPending)
                &&& final(access).history() == old(access).history()
                &&& final(self).state() == ExecutorState::SoftReset
                &&& final(self).ticks() == old(self).ticks()
            },
            old(self).state() != ExecutorState::SoftReset ==> {
                &&& execute_run(
                    final(access).since(old(access)),
                    (final(self).ticks() - old(self).ticks()) as nat,
                    command,
                    timeout,
                    result,
                )
                &&& final(self).state() == if final(access).since(old(access))[0].failure()
                    is None {
                    next_state(old(self).state(), command)
                } else {
                    old(self).state()
                }
                &&& result is Ok ==> final(self).state() == next_state(old(self).state(), command)
            },
    {
        reveal(execute_run);
        if self.state == ExecutorState::SoftReset {
            proof {
            access.lemma_continues_self();
        }
            return Err(Error::ResetPending);
        }
        let issued = access.write(Register::CommandReg, command.opcode());
        let ghost issue = BusEvent::write_of(Register::CommandReg, command.code(), issued);
        assert(access.since(old(access)) =~= seq![issue]);
        if let Err(e) = issued {
            return Err(Error::Bus(e));
        }
        self.state = transition(self.state, command);
        let ghost mut prelude = seq![issue];
        let ghost issued_at = *access;
        let flag = match command {
            Command::Transceive => {
                let reply = access.read(Register::BitFramingReg);
                proof {
                    access.lemma_since_concat(old(access), &issued_at);
                }
                let framing = match reply {
                    Ok(framing) => framing,
                    Err(e) => {
                        assert(access.since(old(access)) =~= seq![
                            issue,
                            BusEvent::read_of(Register::BitFramingReg, Err(e)),
                        ]);
                        return Err(Error::Bus(e));
                    },
                };
                let ghost read_at = *access;
                let started = access.write(
                    Register::BitFramingReg,
                    merge_masked(framing, START_SEND, START_SEND),
                );
                proof {
                    access.lemma_since_concat(old(access), &read_at);
                    prelude = seq![
                        issue,
                        BusEvent::read_of(Register::BitFramingReg, Ok(framing)),
                        BusEvent::write_of(
                            Register::BitFramingReg,
                            merged(framing, START_SEND, START_SEND),
                            started,
                        ),
                    ];
                }
                assert(access.since(old(access)) =~= prelude);
                if let Err(e) = started {
                    assert(prelude.skip(1)[1] == prelude[2]);
                    return Err(Error::Bus(e));
                }
                RX_IRQ
            },
            _ => match completion_irq(command) {
                Some(flag) => flag,
                None => {
                    assert(access.since(old(access)).skip(1) =~= Seq::<BusEvent>::empty());
                    return Ok(CompletionStatus::Completed);
                },
            },
        };
        let ghost started_at = *access;
        let result = self.await_flag(access, flag, timeout);
        proof {
            access.lemma_since_concat(old(access), &started_at);
            lemma_issue_then_wait(
                access.since(old(access)),
                prelude,
                access.since(&started_at),
                (self.ticks() - old(self).ticks()) as nat,
                command,
                timeout,
                result,
            );
        }
        result
    }

    /// Waits until *ComIrqReg* shows `flag`, for at most `timeout` ticks, and
    /// then asks *ErrorReg* how the command went; see [`wait_run`].
    ///
    /// The flags are polled first and the clock is asked only when they do not
    /// show, so a flag that is showing already is seen without a wait, and a
    /// timeout of zero ticks means one poll.
    pub fn await_flag<B: BusTransport>(
        &mut self,
        access: &mut RegisterAccess<B>,
        flag: u8,
        timeout: u64,
    ) -> (result: Result<CompletionStatus, Error>)
        ensures
            final(access).continues(old(access)),
            final(self).ticks() >= old(self).ticks(),
            final(self).state() == old(self).state(),
            wait_run(
                final(access).since(old(access)),
                (final(self).ticks() - old(self).ticks()) as nat,
                flag,
                timeout,
                result,
            ),
    {
        let mut waited: u64 = 0;
        proof {
            access.lemma_continues_self();
        }
        loop
            invariant_except_break
                access.since(old(access)).len() == waited,
            invariant
                waited <= timeout,
                access.continues(old(access)),
                self.ticks() == old(self).ticks() + waited,
                self.state() == old(self).state(),
                forall|i: int|
                    0 <= i < waited ==> (#[trigger] access.since(old(access))[i]).reads(
                        Register::ComIrqReg,
                    ) && access.since(old(access))[i].byte() is Some && access.since(
                        old(access),
                    )[i].byte().unwrap() & flag == 0,
            ensures
                access.since(old(access)).len() == waited + 1,
                access.since(old(access))[waited as int].reads(Register::ComIrqReg),
                access.since(old(access))[waited as int].byte() is Some,
                access.since(old(access))[waited as int].byte().unwrap() & flag != 0,
            decreases timeout - waited,
        {
            let ghost before = *access;
            let reply = access.read(Register::ComIrqReg);
            proof {
                access.lemma_since_concat(old(access), &before);
            }
            assert(access.since(old(access)) =~= before.since(old(access)).push(
                BusEvent::read_of(Register::ComIrqReg, reply),
            ));
            match reply {
                Err(e) => {
                    return Err(Error::Bus(e));
                },
                Ok(flags) => {
                    if flags & flag != 0 {
                        break ;
                    }
                },
            }
            if waited == timeout {
                return Ok(CompletionStatus::Timeout);
            }
            self.clock.wait_tick();
            proof {
                self.waited@ = self.waited@ + 1;
            }
            waited = waited + 1;
        }
        let ghost before = *access;
        let reply = access.read(Register::ErrorReg);
        proof {
            access.lemma_since_concat(old(access), &before);
        }
        assert(access.since(old(access)) =~= before.since(old(access)).push(
            BusEvent::read_of(Register::ErrorReg, reply),
        ));
        match reply {
            Err(e) => Err(Error::Bus(e)),
            Ok(error) => Ok(classify(error)),
        }
    }

    /// Cancels whatever the chip is doing: writes [`Command::Idle`] and flushes
    /// the FIFO, so that the next user finds the chip at rest.
    ///
    /// While a reset is pending this is refused with
    /// [`Error::ResetPending`], and nothing goes over the bus: the chip is at
    /// rest already.
    pub fn cancel<B: BusTransport>(&mut self, access: &mut RegisterAccess<B>) -> (result: Result<
        (),
        Error,
    >)
        ensures
            final(access).continues(old(access)),
            final(self).ticks() == old(self).ticks(),
            old(self).state() == ExecutorState::SoftReset ==> {
                &&& result == Err::<(), Error>(Error::ResetPending)
                &&& final(access).history() == old(access).history()
                &&& final(self).state() == ExecutorState::SoftReset
            },
            old(self).state() != ExecutorState::SoftReset ==> {
                &&& cancel_run(final(access).since(old(access)), result)
                &&& final(self).state() == if final(access).since(old(access))[0].failure()
                    is None {
                    ExecutorState::Idle
                } else {
                    old(self).state()
                }
            },
    {
        if self.state == ExecutorState::SoftReset {
            proof {
            access.lemma_continues_self();
        }
            return Err(Error::ResetPending);
        }
        let idled = access.write(Register::CommandReg, Command::Idle.opcode());
        let ghost first = BusEvent::write_of(Register::CommandReg, Command::Idle.code(), idled);
        assert(access.since(old(access)) =~= seq![first]);
        if let Err(e) = idled {
            return Err(Error::Bus(e));
        }
        self.state = ExecutorState::Idle;
        let ghost idled_at = *access;
        let flushed = access.write(Register::FIFOLevelReg, FLUSH_BUFFER);
        proof {
            access.lemma_since_concat(old(access), &idled_at);
        }
        assert(access.since(old(access)) =~= seq![
            first,
            BusEvent::write_of(Register::FIFOLevelReg, FLUSH_BUFFER, flushed),
        ]);
        match flushed {
            Ok(()) => Ok(()),
            Err(e) => Err(Error::Bus(e)),
        }
    }

    /// Looks whether the chip has come up after a soft reset.
    ///
    /// With no reset pending the answer is `true` and nothing goes over the
    /// bus. Otherwise *CommandReg* is read once: when its power-down bit is
    /// clear the reset is over, the executor moves to
    /// [`ExecutorState::Idle`] and the answer is `true`.
    pub fn poll_power_up<B: BusTransport>(&mut self, access: &mut RegisterAccess<B>) -> (result:
        Result<bool, Error>)
        ensures
            final(access).continues(old(access)),
            final(self).ticks() == old(self).ticks(),
            old(self).state() != ExecutorState::SoftReset ==> {
                &&& result == Ok::<bool, Error>(true)
                &&& final(access).history() == old(access).history()
                &&& final(self).state() == old(self).state()
            },
            old(self).state() == ExecutorState::SoftReset ==> {
                &&& power_up_run(final(access).since(old(access)), result)
                &&& final(self).state() == if result == Ok::<bool, Error>(true) {
                    ExecutorState::Idle
                } else {
                    ExecutorState::SoftReset
                }
            },
    {
        if self.state != ExecutorState::SoftReset {
            proof {
            access.lemma_continues_self();
        }
            return Ok(true);
        }
        let reply = access.read(Register::CommandReg);
        assert(access.since(old(access)) =~= seq![BusEvent::read_of(Register::CommandReg, reply)]);
        match reply {
            Err(e) => Err(Error::Bus(e)),
            Ok(value) => {
                let up = value & POWER_DOWN == 0;
                if up {
                    self.state = ExecutorState::Idle;
                }
                Ok(up)
            },
        }
    }
}

/// An acknowledged issue of `command` followed by the wait for it is a run
/// of `execute`.
proof fn lemma_issue_then_wait(
    traffic: Seq<BusEvent>,
    prelude: Seq<BusEvent>,
    tail: Seq<BusEvent>,
    ticks: nat,
    command: Command,
    timeout: u64,
    result: Result<CompletionStatus, Error>,
)
    requires
        traffic == prelude + tail,
        issued_run(prelude, command),
        completion_flag(command) is Some,
        wait_run(tail, ticks, completion_flag(command).unwrap(), timeout, result),
    ensures
        execute_run(traffic, ticks, command, timeout, result),
        traffic[0].failure() is None,
{
    reveal(execute_run);
    assert(traffic[0] == prelude[0]);
    if command == Command::Transceive {
        assert(traffic[1] == prelude[1]);
        assert(traffic[2] == prelude[2]);
        assert(traffic.skip(1).skip(2) =~= tail);
    } else {
        assert(traffic.skip(1) =~= tail);
    }
}

} // verus!
