//! What a simulated chip is: a register store with the chip's FIFO, its
//! interrupt flags and its soft reset, and no card in its field.
//!
//! [`ChipModel`] is the state of such a chip, and says how one transfer
//! changes it and what the chip replies.
use vstd::prelude::*;
use crate::channel::{burst_run, drain_run, level_of, room_at};
use crate::error::Error;
use crate::fifo::FIFO_CAPACITY;
use crate::register::{
    Command, Register, BUFFER_OVFL, COMMAND_MASK, FLUSH_BUFFER, IRQ_ALL, IRQ_SET, POWER_DOWN,
};
use crate::transport::{BusError, BusEvent};

verus! {

/// The state of a simulated chip.
pub struct ChipModel {
    /// The register file, by address.
    pub regs: Seq<u8>,
    /// The content of the FIFO, oldest byte first.
    pub fifo: Seq<u8>,
    /// Whether the chip was reset and its power-down bit has not been read
    /// since.
    pub booting: bool,
}

impl ChipModel {
    /// What holds of every state of the chip.
    pub open spec fn wf(self) -> bool {
        self.regs.len() == 64 && self.fifo.len() <= FIFO_CAPACITY
    }

    /// The chip as it comes out of a reset.
    pub open spec fn power_on() -> ChipModel {
        ChipModel { regs: Seq::new(64, |i: int| 0u8), fifo: Seq::empty(), booting: false }
    }

    /// Whether the chip keeps `register` as plain storage: a read returns what
    /// was last written, and neither changes anything else.
    pub open spec fn is_storage(register: Register) -> bool {
        register != Register::CommandReg && register != Register::ComIrqReg && register
            != Register::FIFODataReg && register != Register::FIFOLevelReg
    }

    /// The byte that a read of `address` returns.
    pub open spec fn answer(self, address: u8) -> u8 {
        if address == Register::FIFODataReg.addr() {
            if self.fifo.len() > 0 {
                self.fifo[0]
            } else {
                0
            }
        } else if address == Register::FIFOLevelReg.addr() {
            self.fifo.len() as u8
        } else if address == Register::CommandReg.addr() && self.booting {
            self.regs[address as int] | POWER_DOWN
        } else {
            self.regs[address as int]
        }
    }

    /// The chip after a read of `address`.
    pub open spec fn after_read(self, address: u8) -> ChipModel {
        if address == Register::FIFODataReg.addr() && self.fifo.len() > 0 {
            ChipModel { fifo: self.fifo.skip(1), ..self }
        } else if address == Register::CommandReg.addr() {
            ChipModel { booting: false, ..self }
        } else {
            self
        }
    }

    /// The chip after a write of `value` to `address`.
    pub open spec fn after_write(self, address: u8, value: u8) -> ChipModel {
        if address == Register::FIFODataReg.addr() {
            if self.fifo.len() < FIFO_CAPACITY {
                ChipModel { fifo: self.fifo.push(value), ..self }
            } else {
                let error = Register::ErrorReg.addr() as int;
                ChipModel { regs: self.regs.update(error, self.regs[error] | BUFFER_OVFL), ..self }
            }
        } else if address == Register::FIFOLevelReg.addr() {
            if value & FLUSH_BUFFER != 0 {
                ChipModel { fifo: Seq::empty(), ..self }
            } else {
                self
            }
        } else if address == Register::ComIrqReg.addr() {
            let flags = self.regs[address as int];
            let next = if value & IRQ_SET != 0 {
                flags | (value & IRQ_ALL)
            } else {
                flags & !value
            };
            ChipModel { regs: self.regs.update(address as int, next), ..self }
        } else if address == Register::CommandReg.addr() && value & COMMAND_MASK
            == Command::SoftReset.code() {
            ChipModel { booting: true, ..Self::power_on() }
        } else {
            ChipModel { regs: self.regs.update(address as int, value), ..self }
        }
    }

    /// Whether `event` carries the reply that this chip gives. The simulated
    /// bus never fails.
    pub open spec fn accepts(self, event: BusEvent) -> bool {
        match event {
            BusEvent::Read { address, reply } => address < 64 && reply == Ok::<u8, BusError>(
                self.answer(address),
            ),
            BusEvent::Write { address, value, reply } => address < 64 && reply is Ok,
        }
    }

    /// The chip after the transfer `event`.
    pub open spec fn step(self, event: BusEvent) -> ChipModel {
        match event {
            BusEvent::Read { address, .. } => self.after_read(address),
            BusEvent::Write { address, value, .. } => self.after_write(address, value),
        }
    }

    /// Whether `traffic` is what a driver sees when this chip is at the other
    /// end of the bus: every transfer, in turn, carries the chip's reply.
    pub open spec fn answers(self, traffic: Seq<BusEvent>) -> bool
        decreases traffic.len(),
    {
        if traffic.len() == 0 {
            true
        } else {
            self.accepts(traffic[0]) && self.step(traffic[0]).answers(traffic.skip(1))
        }
    }

    /// The chip after all of `traffic`.
    pub open spec fn after(self, traffic: Seq<BusEvent>) -> ChipModel
        decreases traffic.len(),
    {
        if traffic.len() == 0 {
            self
        } else {
            self.step(traffic[0]).after(traffic.skip(1))
        }
    }

    /// One transfer keeps the chip well-formed.
    pub proof fn lemma_step_wf(self, event: BusEvent)
        requires
            self.wf(),
            self.accepts(event),
        ensures
            self.step(event).wf(),
    {
    }

    /// Traffic in two parts is answered part by part.
    pub proof fn lemma_after_concat(self, first: Seq<BusEvent>, second: Seq<BusEvent>)
        ensures
            self.after(first + second) == self.after(first).after(second),
            self.answers(first + second) <==> self.answers(first) && self.after(first).answers(
                second,
            ),
        decreases first.len(),
    {
        if first.len() == 0 {
            assert(first + second =~= second);
        } else {
            assert((first + second).skip(1) =~= first.skip(1) + second);
            self.step(first[0]).lemma_after_concat(first.skip(1), second);
        }
    }

    /// A run of writes to the FIFO that fits is accepted whole and appends the
    /// bytes to the FIFO.
    pub proof fn lemma_burst(
        self,
        traffic: Seq<BusEvent>,
        bytes: Seq<u8>,
        result: Result<(), Error>,
    )
        requires
            self.wf(),
            burst_run(traffic, Register::FIFODataReg, bytes, result),
            self.answers(traffic),
            self.fifo.len() + bytes.len() <= FIFO_CAPACITY,
        ensures
            result is Ok,
            self.after(traffic) == (ChipModel { fifo: self.fifo + bytes, ..self }),
        decreases traffic.len(),
    {
        if traffic.len() == 0 {
            assert(self.fifo + bytes =~= self.fifo);
        } else {
            let rest = traffic.skip(1);
            assert(traffic[0].writes(Register::FIFODataReg, bytes[0]));
            assert(traffic[0].failure() is None);
            assert forall|i: int| 0 <= i < rest.len() implies (#[trigger] rest[i]).writes(
                Register::FIFODataReg,
                bytes.skip(1)[i],
            ) by {
                assert(rest[i] == traffic[i + 1]);
            }
            assert forall|i: int| 0 <= i < rest.len() - 1 implies (#[trigger] rest[i]).failure()
                is None by {
                assert(rest[i] == traffic[i + 1]);
            }
            if rest.len() > 0 {
                assert(rest.last() == traffic.last());
            }
            self.step(traffic[0]).lemma_burst(rest, bytes.skip(1), result);
            assert(self.fifo.push(bytes[0]) + bytes.skip(1) =~= self.fifo + bytes);
        }
    }

    /// A run of reads from a FIFO that holds enough is accepted whole and
    /// takes the oldest bytes, in order.
    pub proof fn lemma_drain(
        self,
        traffic: Seq<BusEvent>,
        count: nat,
        result: Result<Seq<u8>, Error>,
    )
        requires
            self.wf(),
            drain_run(traffic, Register::FIFODataReg, count, result),
            self.answers(traffic),
            count <= self.fifo.len(),
        ensures
            result == Ok::<Seq<u8>, Error>(self.fifo.take(count as int)),
            self.after(traffic) == (ChipModel { fifo: self.fifo.skip(count as int), ..self }),
        decreases traffic.len(),
    {
        if traffic.len() == 0 {
            assert(count == 0) by {
                if result is Ok {
                } else {
                }
            }
            assert(result->Ok_0 =~= self.fifo.take(0));
            assert(self.fifo.skip(0) =~= self.fifo);
        } else {
            let rest = traffic.skip(1);
            assert(traffic[0].reads(Register::FIFODataReg));
            assert(traffic[0].failure() is None);
            if rest.len() > 0 {
                assert(rest.last() == traffic.last());
            }
            let tail: Result<Seq<u8>, Error> = match result {
                Ok(bytes) => Ok(bytes.skip(1)),
                Err(error) => Err(error),
            };
            assert forall|i: int| 0 <= i < rest.len() implies (#[trigger] rest[i]).reads(
                Register::FIFODataReg,
            ) by {
                assert(rest[i] == traffic[i + 1]);
            }
            assert forall|i: int| 0 <= i < rest.len() - 1 implies (#[trigger] rest[i]).failure()
                is None by {
                assert(rest[i] == traffic[i + 1]);
            }
            if let Ok(bytes) = result {
                assert forall|i: int| 0 <= i < count - 1 implies (#[trigger] rest[i]).byte()
                    == Some(bytes.skip(1)[i]) by {
                    assert(rest[i] == traffic[i + 1]);
                }
            }
            self.step(traffic[0]).lemma_drain(rest, (count - 1) as nat, tail);
            let bytes = result->Ok_0;
            assert(traffic[0].byte() == Some(bytes[0]));
            assert(bytes =~= self.fifo.take(count as int)) by {
                assert(bytes.skip(1) == self.fifo.skip(1).take(count - 1));
                assert forall|i: int| 0 <= i < count implies bytes[i] == self.fifo[i] by {
                    if i > 0 {
                        assert(bytes[i] == bytes.skip(1)[i - 1]);
                        assert(self.fifo[i] == self.fifo.skip(1).take(count - 1)[i - 1]);
                    }
                }
            }
            assert(self.fifo.skip(1).skip(count - 1) =~= self.fifo.skip(count as int));
        }
    }
}

/// A well-formed chip reports its FIFO level as it is.
pub proof fn lemma_level_answer(chip: ChipModel)
    requires
        chip.wf(),
    ensures
        level_of(chip.answer(Register::FIFOLevelReg.addr())) == chip.fifo.len(),
        room_at(level_of(chip.answer(Register::FIFOLevelReg.addr()))) == FIFO_CAPACITY
            - chip.fifo.len(),
{
    let raw = chip.fifo.len() as u8;
    assert(raw & 0x7F == raw) by (bit_vector)
        requires
            raw <= 64,
    ;
}

} // verus!
