//! The two collaborators that the driver is built on: a bus that carries
//! address and value pairs to one chip, and a clock that paces polling.
//!
//! Neither has to promise anything. What the driver does with them is
//! recorded by the driver itself, see [`crate::access::RegisterAccess`] and
//! [`crate::command::CommandExecutor`]. A transport that does know how it
//! behaves, such as [`crate::sim::SimulatedChip`], can say so in
//! [`BusTransport::carries`], and what is proved of the driver then extends
//! to what it does to that transport.
use vstd::prelude::*;
use crate::register::Register;

verus! {

/// A failure of the transport itself.
#[derive(Debug, Clone, Copy, PartialEq, Eq, Structural)]
pub enum BusError {
    /// The chip did not acknowledge the transfer.
    NoAck,
    /// The transfer did not finish in time.
    Timeout,
}

/// One transfer over the bus, with what came back.
#[derive(Debug, Clone, Copy, PartialEq, Eq)]
#[allow(inconsistent_fields)]
pub enum BusEvent {
    /// A read of the register at `address`.
    Read { address: u8, reply: Result<u8, BusError> },
    /// A write of `value` to the register at `address`.
    Write { address: u8, value: u8, reply: Result<(), BusError> },
}

impl BusEvent {
    /// A read of `register` that was answered with `reply`.
    pub open spec fn read_of(register: Register, reply: Result<u8, BusError>) -> BusEvent {
        BusEvent::Read { address: register.addr(), reply }
    }

    /// A write of `value` to `register` that was answered with `reply`.
    pub open spec fn write_of(
        register: Register,
        value: u8,
        reply: Result<(), BusError>,
    ) -> BusEvent {
        BusEvent::Write { address: register.addr(), value, reply }
    }

    /// Whether this is a read of `register`.
    pub open spec fn reads(self, register: Register) -> bool {
        self matches BusEvent::Read { address, .. } && address == register.addr()
    }

    /// Whether this is a write of `value` to `register`.
    pub open spec fn writes(self, register: Register, value: u8) -> bool {
        self matches BusEvent::Write { address, value: written, .. } && address == register.addr()
            && written == value
    }

    /// The transport failure that this transfer ended in, if it did.
    pub open spec fn failure(self) -> Option<BusError> {
        match self {
            BusEvent::Read { reply: Err(e), .. } => Some(e),
            BusEvent::Write { reply: Err(e), .. } => Some(e),
            _ => None,
        }
    }

    /// The byte that this transfer read, if it is a read that succeeded.
    pub open spec fn byte(self) -> Option<u8> {
        match self {
            BusEvent::Read { reply: Ok(value), .. } => Some(value),
            _ => None,
        }
    }
}

/// A transport that exchanges raw bytes with one chip.
///
/// How a transfer is framed on the wire (the read/write bit of SPI, the
/// register byte of I2C) is the transport's business. The driver hands it
/// six-bit addresses only.
pub trait BusTransport: Sized {
    /// Whether the transfer `event` can take this transport to `next`.
    ///
    /// This is what a transport promises of its own transfers. By default it
    /// promises nothing: any reply can come, and anything can have changed.
    open spec fn carries(&self, event: BusEvent, next: &Self) -> bool {
        true
    }

    /// Reads the register at `address`.
    fn read(&mut self, address: u8) -> (reply: Result<u8, BusError>)
        requires
            address < 64,
        ensures
            old(self).carries(BusEvent::Read { address, reply }, final(self)),
    ;

    /// Writes `value` to the register at `address`.
    fn write(&mut self, address: u8, value: u8) -> (reply: Result<(), BusError>)
        requires
            address < 64,
        ensures
            old(self).carries(BusEvent::Write { address, value, reply }, final(self)),
    ;
}

/// Whether `states` are the states that the transport `from` goes through, one
/// by one, while it carries `traffic` and ends as `to`.
pub open spec fn passes<B: BusTransport>(
    from: B,
    traffic: Seq<BusEvent>,
    states: Seq<B>,
    to: B,
) -> bool {
    &&& states.len() == traffic.len() + 1
    &&& states[0] == from
    &&& states[traffic.len() as int] == to
    &&& forall|i: int|
        0 <= i < traffic.len() ==> (#[trigger] states[i]).carries(traffic[i], &states[i + 1])
}

/// Whether the transfers `traffic`, one after the other, can take the
/// transport `from` to `to`.
pub open spec fn reaches<B: BusTransport>(from: B, traffic: Seq<BusEvent>, to: B) -> bool {
    exists|states: Seq<B>| passes(from, traffic, states, to)
}

/// A transport that has carried nothing is where it was.
pub proof fn lemma_reaches_empty<B: BusTransport>(from: B, to: B)
    ensures
        reaches(from, Seq::<BusEvent>::empty(), to) <==> from == to,
{
    if from == to {
        assert(passes(from, Seq::<BusEvent>::empty(), seq![from], to));
    }
}

/// One more transfer extends a run of transfers.
pub proof fn lemma_reaches_push<B: BusTransport>(
    from: B,
    traffic: Seq<BusEvent>,
    mid: B,
    event: BusEvent,
    to: B,
)
    requires
        reaches(from, traffic, mid),
        mid.carries(event, &to),
    ensures
        reaches(from, traffic.push(event), to),
{
    let states = choose|states: Seq<B>| passes(from, traffic, states, mid);
    assert(passes(from, traffic.push(event), states.push(to), to));
}

/// Two runs of transfers, one after the other, are one run.
pub proof fn lemma_reaches_concat<B: BusTransport>(
    from: B,
    first: Seq<BusEvent>,
    mid: B,
    second: Seq<BusEvent>,
    to: B,
)
    requires
        reaches(from, first, mid),
        reaches(mid, second, to),
    ensures
        reaches(from, first + second, to),
{
    let before = choose|states: Seq<B>| passes(from, first, states, mid);
    let after = choose|states: Seq<B>| passes(mid, second, states, to);
    let states = before + after.skip(1);
    let traffic = first + second;
    assert forall|i: int| 0 <= i < traffic.len() implies (#[trigger] states[i]).carries(
        traffic[i],
        &states[i + 1],
    ) by {
        if i < first.len() {
            assert(before[i].carries(first[i], &before[i + 1]));
            if i + 1 == before.len() - 1 {
                assert(states[i + 1] == before[i + 1] || states[i + 1] == after[1]);
            }
        } else {
            let k = i - first.len();
            assert(after[k].carries(second[k], &after[k + 1]));
            assert(states[i] == after[k]) by {
                if k == 0 {
                    assert(states[i] == before[first.len() as int]);
                }
            }
        }
    }
    assert(passes(from, traffic, states, to));
}

/// A clock that measures time in ticks of a fixed length.
pub trait Clock {
    /// Returns when one more tick has passed.
    fn wait_tick(&mut self);
}

} // verus!
