//! A simulated chip and a simulated clock, for use where a transport and a
//! clock are needed and no hardware is at hand.
//!
//! Each transfer of [`SimulatedChip`] is proved to answer and to change the
//! chip as [`ChipModel`] says, so whatever a driver does to the chip is what
//! it does to the model.
use vstd::prelude::*;
use crate::fifo::FifoBuffer;
use crate::model::ChipModel;
use crate::register::{
    Command, Register, BUFFER_OVFL, COMMAND_MASK, FLUSH_BUFFER, IRQ_ALL, IRQ_SET, POWER_DOWN,
};
use crate::transport::{passes, reaches, BusError, BusEvent, BusTransport, Clock};

verus! {

/// A simulated chip, for use where a transport is needed and no hardware is
/// at hand.
///
/// It keeps a list of the transfers made on it, so that a caller can see what
/// a driver operation put on the bus.
pub struct SimulatedChip {
    regs: [u8; 64],
    fifo: FifoBuffer,
    booting: bool,
    transfers: Vec<BusEvent>,
}

impl View for SimulatedChip {
    type V = ChipModel;

    closed spec fn view(&self) -> ChipModel {
        ChipModel { regs: self.regs@, fifo: self.fifo@, booting: self.booting }
    }
}

impl SimulatedChip {
    /// The transfers made on this chip, oldest first.
    pub closed spec fn seen(&self) -> Seq<BusEvent> {
        self.transfers@
    }

    /// A chip fresh out of reset, on which nothing has been transferred.
    pub fn new() -> (chip: Self)
        ensures
            chip@ == ChipModel::power_on(),
            chip@.wf(),
            chip.seen() == Seq::<BusEvent>::empty(),
    {
        let chip = SimulatedChip {
            regs: [0u8; 64],
            fifo: FifoBuffer::new(),
            booting: false,
            transfers: Vec::new(),
        };
        assert(chip@.regs =~= ChipModel::power_on().regs);
        chip
    }

    /// What `register` holds, looked up without a transfer.
    pub fn register(&self, register: Register) -> (value: u8)
        ensures
            value == self@.regs[register.addr() as int],
    {
        self.regs[register.address() as usize]
    }

    /// A copy of the FIFO's content, oldest byte first, taken without a
    /// transfer.
    pub fn fifo(&self) -> (bytes: Vec<u8>)
        ensures
            bytes@ == self@.fifo,
            self@.wf(),
    {
        self.fifo.contents()
    }

    /// The transfers made on this chip so far, oldest first.
    pub fn transfers(&self) -> (list: &Vec<BusEvent>)
        ensures
            list@ == self.seen(),
    {
        &self.transfers
    }
}

impl Default for SimulatedChip {
    fn default() -> (chip: Self)
        ensures
            chip@ == ChipModel::power_on(),
            chip.seen() == Seq::<BusEvent>::empty(),
    {
        SimulatedChip::new()
    }
}

impl BusTransport for SimulatedChip {
    /// The simulated chip answers every transfer as its model does, changes as
    /// its model does, and puts the transfer on its list.
    open spec fn carries(&self, event: BusEvent, next: &Self) -> bool {
        &&& self@.accepts(event)
        &&& next@ == self@.step(event)
        &&& next.seen() == self.seen().push(event)
    }

    /// Answers as [`ChipModel::answer`] says and changes as
    /// [`ChipModel::after_read`] says. Never fails.
    fn read(&mut self, address: u8) -> (reply: Result<u8, BusError>)
        ensures
            reply == Ok::<u8, BusError>(old(self)@.answer(address)),
            final(self)@ == old(self)@.after_read(address),
            final(self)@.wf(),
            final(self).seen() == old(self).seen().push(BusEvent::Read { address, reply }),
    {
        let level = self.fifo.level();
        let value = if address == Register::FIFODataReg.address() {
            if level > 0 {
                match self.fifo.pull(1) {
                    Ok(bytes) => bytes[0],
                    Err(_) => 0,
                }
            } else {
                0
            }
        } else if address == Register::FIFOLevelReg.address() {
            level
        } else if address == Register::CommandReg.address() {
            let stored = self.regs[address as usize];
            let shown = if self.booting {
                stored | POWER_DOWN
            } else {
                stored
            };
            self.booting = false;
            shown
        } else {
            self.regs[address as usize]
        };
        let reply = Ok(value);
        self.transfers.push(BusEvent::Read { address, reply });
        reply
    }

    /// Changes as [`ChipModel::after_write`] says. Never fails.
    fn write(&mut self, address: u8, value: u8) -> (reply: Result<(), BusError>)
        ensures
            reply is Ok,
            final(self)@ == old(self)@.after_write(address, value),
            final(self)@.wf(),
            final(self).seen() == old(self).seen().push(BusEvent::Write { address, value, reply }),
    {
        let room = self.fifo.remaining();
        if address == Register::FIFODataReg.address() {
            if room > 0 {
                let one = [value];
                let stored = self.fifo.push(one.as_slice());
                assert(stored is Ok);
                assert(one@ =~= seq![value]);
                assert(old(self)@.fifo + seq![value] =~= old(self)@.fifo.push(value));
            } else {
                let error = Register::ErrorReg.address() as usize;
                let flags = self.regs[error];
                self.regs[error] = flags | BUFFER_OVFL;
            }
        } else if address == Register::FIFOLevelReg.address() {
            if value & FLUSH_BUFFER != 0 {
                self.fifo.clear();
            }
        } else if address == Register::ComIrqReg.address() {
            let flags = self.regs[address as usize];
            self.regs[address as usize] = if value & IRQ_SET != 0 {
                flags | (value & IRQ_ALL)
            } else {
                flags & !value
            };
        } else if address == Register::CommandReg.address() && value & COMMAND_MASK
            == Command::SoftReset.opcode() {
            self.regs = [0u8; 64];
            self.fifo.clear();
            self.booting = true;
            assert(self@.regs =~= ChipModel::power_on().regs);
        } else {
            self.regs[address as usize] = value;
        }
        let reply = Ok(());
        self.transfers.push(BusEvent::Write { address, value, reply });
        reply
    }
}

/// A simulated clock: it counts the ticks that were waited for on it.
pub struct SimulatedClock {
    ticks: u64,
}

impl SimulatedClock {
    /// The number of ticks waited for so far; the count stops at `u64::MAX`.
    pub closed spec fn elapsed(&self) -> u64 {
        self.ticks
    }

    /// A clock that has not ticked yet.
    pub fn new() -> (clock: Self)
        ensures
            clock.elapsed() == 0,
    {
        SimulatedClock { ticks: 0 }
    }

    /// The number of ticks waited for so far.
    pub fn ticks(&self) -> (ticks: u64)
        ensures
            ticks == self.elapsed(),
    {
        self.ticks
    }
}

impl Default for SimulatedClock {
    fn default() -> (clock: Self)
        ensures
            clock.elapsed() == 0,
    {
        SimulatedClock::new()
    }
}

impl Clock for SimulatedClock {
    /// Counts one tick and returns at once.
    fn wait_tick(&mut self)
        ensures
            final(self).elapsed() == if old(self).elapsed() < u64::MAX {
                (old(self).elapsed() + 1) as u64
            } else {
                u64::MAX
            },
    {
        if self.ticks < u64::MAX {
            self.ticks = self.ticks + 1;
        }
    }
}

/// The first `count` of the states that a simulated chip passes through are
/// those of its model.
proof fn lemma_simulated_prefix(
    from: SimulatedChip,
    traffic: Seq<BusEvent>,
    states: Seq<SimulatedChip>,
    to: SimulatedChip,
    count: nat,
)
    requires
        passes(from, traffic, states, to),
        count <= traffic.len(),
    ensures
        from@.answers(traffic.take(count as int)),
        states[count as int]@ == from@.after(traffic.take(count as int)),
        states[count as int].seen() == from.seen() + traffic.take(count as int),
    decreases count,
{
    if count == 0 {
        assert(from.seen() + traffic.take(0) =~= from.seen());
    } else {
        let shorter = traffic.take(count - 1);
        let event = traffic[count - 1];
        lemma_simulated_prefix(from, traffic, states, to, (count - 1) as nat);
        assert(states[count - 1].carries(event, &states[count as int]));
        assert(traffic.take(count as int) =~= shorter + seq![event]);
        from@.lemma_after_concat(shorter, seq![event]);
        reveal_with_fuel(ChipModel::answers, 2);
        reveal_with_fuel(ChipModel::after, 2);
        assert(seq![event].skip(1) =~= Seq::<BusEvent>::empty());
        assert(from.seen() + traffic.take(count as int) =~= (from.seen() + shorter).push(event));
    }
}

/// Whatever is carried by the simulated chip is answered by its model, takes
/// the chip where the model says, and is added to the chip's list.
pub proof fn lemma_simulated_run(from: SimulatedChip, traffic: Seq<BusEvent>, to: SimulatedChip)
    requires
        reaches(from, traffic, to),
    ensures
        from@.answers(traffic),
        to@ == from@.after(traffic),
        to.seen() == from.seen() + traffic,
{
    let states = choose|states: Seq<SimulatedChip>| passes(from, traffic, states, to);
    lemma_simulated_prefix(from, traffic, states, to, traffic.len());
    assert(traffic.take(traffic.len() as int) =~= traffic);
}

} // verus!
