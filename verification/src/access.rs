//! Register access: reads, writes and read-modify-writes of named registers.
//!
//! [`RegisterAccess`] owns the transport. Holding it by `&mut` is the
//! critical section that one logical operation needs: nothing else can reach
//! the chip between the read and the write of a masked write. It also keeps,
//! as ghost state, the list of every transfer it has made, so that each
//! operation's contract can say exactly what went over the bus, and what the
//! transport promises of those transfers.
use vstd::prelude::*;
use crate::register::{Register, RxGain, RX_GAIN_MASK};
use crate::transport::{
    lemma_reaches_concat, lemma_reaches_empty, lemma_reaches_push, reaches, BusError, BusEvent,
    BusTransport,
};

verus! {

/// The value that a masked write of `value` under `mask` leaves in a register
/// that held `before`: the bits under the mask come from `value`, all others
/// stay.
pub open spec fn merged(before: u8, mask: u8, value: u8) -> u8 {
    (before & !mask) | (value & mask)
}

/// Computes the byte to write back in a read-modify-write.
pub fn merge_masked(before: u8, mask: u8, value: u8) -> (after: u8)
    ensures
        after == merged(before, mask, value),
{
    (before & !mask) | (value & mask)
}

/// A masked write changes the bits under the mask and no others: outside the
/// mask the merged byte is what the register held, under it what `value`
/// holds.
pub proof fn lemma_merged_keeps_unmasked(before: u8, mask: u8, value: u8)
    ensures
        merged(before, mask, value) & !mask == before & !mask,
        merged(before, mask, value) & mask == value & mask,
{
    assert(((before & !mask) | (value & mask)) & !mask == before & !mask) by (bit_vector);
    assert(((before & !mask) | (value & mask)) & mask == value & mask) by (bit_vector);
}

/// Setting a gain leaves the reserved bits of *RFCfgReg* as they were, and
/// the register then selects that gain.
pub proof fn lemma_gain_write(before: u8, gain: RxGain)
    ensures
        merged(before, RX_GAIN_MASK, gain.bits()) & !RX_GAIN_MASK == before & !RX_GAIN_MASK,
        RxGain::decode(merged(before, RX_GAIN_MASK, gain.bits())) == gain,
{
    let bits = gain.bits();
    lemma_merged_keeps_unmasked(before, RX_GAIN_MASK, bits);
    assert(bits & 0x70 == bits) by (bit_vector)
        requires
            bits == 0x00 || bits == 0x10 || bits == 0x40 || bits == 0x50 || bits == 0x60 || bits
                == 0x70,
    ;
}

/// What a read of the gain puts on the bus and returns: one read of
/// *RFCfgReg*, whose gain field is decoded.
pub open spec fn gain_run(traffic: Seq<BusEvent>, result: Result<RxGain, BusError>) -> bool {
    &&& traffic.len() == 1
    &&& traffic[0].reads(Register::RFCfgReg)
    &&& match traffic[0].byte() {
        None => traffic[0].failure() is Some && result == Err::<RxGain, BusError>(
            traffic[0].failure().unwrap(),
        ),
        Some(value) => result == Ok::<RxGain, BusError>(RxGain::decode(value)),
    }
}

/// What a masked write of `value` under `mask` to `register` puts on the bus,
/// and what it returns: one read; if that succeeds, one write of the merged
/// byte, whose reply is the result.
pub open spec fn masked_write_run(
    traffic: Seq<BusEvent>,
    register: Register,
    mask: u8,
    value: u8,
    result: Result<(), BusError>,
) -> bool {
    &&& traffic.len() >= 1
    &&& traffic[0].reads(register)
    &&& match traffic[0].byte() {
        None => traffic.len() == 1 && traffic[0].failure() is Some && result == Err::<(), BusError>(
            traffic[0].failure().unwrap(),
        ),
        Some(before) => traffic.len() == 2 && traffic[1] == BusEvent::write_of(
            register,
            merged(before, mask, value),
            result,
        ),
    }
}

/// The registers of one chip, reached over a transport.
pub struct RegisterAccess<B: BusTransport> {
    bus: B,
    log: Ghost<Seq<BusEvent>>,
}

impl<B: BusTransport> RegisterAccess<B> {
    /// Every transfer made through this access, oldest first.
    pub closed spec fn history(&self) -> Seq<BusEvent> {
        self.log@
    }

    /// The transport behind this access.
    pub closed spec fn transport(&self) -> B {
        self.bus
    }

    /// Whether this access is a later state of `before`: nothing that was on
    /// record then has been lost or changed, and the transfers made since
    /// have taken the transport from where it was then to where it is now.
    pub open spec fn continues(&self, before: &Self) -> bool {
        &&& before.history().is_prefix_of(self.history())
        &&& reaches(before.transport(), self.since(before), self.transport())
    }

    /// The transfers made since `before`.
    pub open spec fn since(&self, before: &Self) -> Seq<BusEvent> {
        self.history().skip(before.history().len() as int)
    }

    /// What was transferred since `earlier` is what was transferred up to
    /// `between`, followed by what was transferred since.
    pub proof fn lemma_since_concat(&self, earlier: &Self, between: &Self)
        requires
            between.continues(earlier),
            self.continues(between),
        ensures
            self.continues(earlier),
            self.since(earlier) == between.since(earlier) + self.since(between),
            self.since(earlier).take(between.since(earlier).len() as int) == between.since(earlier),
            self.since(earlier).skip(between.since(earlier).len() as int) == self.since(between),
    {
        lemma_reaches_concat(
            earlier.transport(),
            between.since(earlier),
            between.transport(),
            self.since(between),
            self.transport(),
        );
        assert(self.since(earlier) =~= between.since(earlier) + self.since(between));
        assert(self.since(earlier).take(between.since(earlier).len() as int) =~= between.since(
            earlier,
        ));
        assert(self.since(earlier).skip(between.since(earlier).len() as int) =~= self.since(
            between,
        ));
    }

    /// An access that has made no transfer since `self` is `self`, as far as
    /// the bus is concerned.
    pub proof fn lemma_continues_self(&self)
        ensures
            self.continues(self),
            self.since(self) == Seq::<BusEvent>::empty(),
    {
        assert(self.since(self) =~= Seq::<BusEvent>::empty());
        lemma_reaches_empty(self.transport(), self.transport());
    }

    /// Takes charge of a transport. Nothing has been transferred yet.
    pub fn new(bus: B) -> (access: Self)
        ensures
            access.history() == Seq::<BusEvent>::empty(),
            access.transport() == bus,
    {
        RegisterAccess { bus, log: Ghost(Seq::empty()) }
    }

    /// Gives the transport back.
    pub fn release(self) -> (bus: B)
        ensures
            bus == self.transport(),
    {
        self.bus
    }

    /// Looks at the transport without using it.
    pub fn bus(&self) -> (bus: &B)
        ensures
            *bus == self.transport(),
    {
        &self.bus
    }

    /// Reads `register`. The transport's reply is the result.
    pub fn read(&mut self, register: Register) -> (reply: Result<u8, BusError>)
        ensures
            final(self).history() == old(self).history().push(BusEvent::read_of(register, reply)),
            final(self).continues(old(self)),
    {
        let reply = self.bus.read(register.address());
        proof {
            self.log@ = self.log@.push(BusEvent::read_of(register, reply));
            assert(self.since(old(self)) =~= seq![BusEvent::read_of(register, reply)]);
            lemma_reaches_empty(old(self).bus, old(self).bus);
            lemma_reaches_push(
                old(self).bus,
                Seq::empty(),
                old(self).bus,
                BusEvent::read_of(register, reply),
                self.bus,
            );
            assert(Seq::<BusEvent>::empty().push(BusEvent::read_of(register, reply)) =~= seq![
                BusEvent::read_of(register, reply),
            ]);
        }
        reply
    }

    /// Writes `value` to `register`. The transport's reply is the result.
    pub fn write(&mut self, register: Register, value: u8) -> (reply: Result<(), BusError>)
        ensures
            final(self).history() == old(self).history().push(
                BusEvent::write_of(register, value, reply),
            ),
            final(self).continues(old(self)),
    {
        let reply = self.bus.write(register.address(), value);
        proof {
            self.log@ = self.log@.push(BusEvent::write_of(register, value, reply));
            assert(self.since(old(self)) =~= seq![BusEvent::write_of(register, value, reply)]);
            lemma_reaches_empty(old(self).bus, old(self).bus);
            lemma_reaches_push(
                old(self).bus,
                Seq::empty(),
                old(self).bus,
                BusEvent::write_of(register, value, reply),
                self.bus,
            );
            assert(Seq::<BusEvent>::empty().push(BusEvent::write_of(register, value, reply))
                =~= seq![BusEvent::write_of(register, value, reply)]);
        }
        reply
    }

    /// Selects the receiver gain by a masked write to *RFCfgReg*, so that the
    /// reserved bits of the register stay as they are.
    pub fn set_rx_gain(&mut self, gain: RxGain) -> (result: Result<(), BusError>)
        ensures
            final(self).continues(old(self)),
            masked_write_run(
                final(self).since(old(self)),
                Register::RFCfgReg,
                RX_GAIN_MASK,
                gain.bits(),
                result,
            ),
    {
        self.write_masked(Register::RFCfgReg, RX_GAIN_MASK, gain.pattern())
    }

    /// Reads the receiver gain that is selected.
    pub fn rx_gain(&mut self) -> (result: Result<RxGain, BusError>)
        ensures
            final(self).continues(old(self)),
            gain_run(final(self).since(old(self)), result),
    {
        let reply = self.read(Register::RFCfgReg);
        assert(self.since(old(self)) =~= seq![BusEvent::read_of(Register::RFCfgReg, reply)]);
        match reply {
            Ok(value) => Ok(RxGain::from_pattern(value)),
            Err(e) => Err(e),
        }
    }

    /// Read-modify-write: replaces the bits of `register` that `mask` selects
    /// with those of `value` and writes every other bit back as it was read.
    ///
    /// A failed read ends the operation before anything is written.
    pub fn write_masked(&mut self, register: Register, mask: u8, value: u8) -> (result: Result<
        (),
        BusError,
    >)
        ensures
            final(self).continues(old(self)),
            masked_write_run(final(self).since(old(self)), register, mask, value, result),
    {
        match self.read(register) {
            Err(e) => {
                assert(self.since(old(self)) =~= seq![BusEvent::read_of(register, Err(e))]);
                Err(e)
            },
            Ok(before) => {
                let ghost read_at = *self;
                let result = self.write(register, merge_masked(before, mask, value));
                proof {
                    self.lemma_since_concat(old(self), &read_at);
                }
                assert(self.since(old(self)) =~= seq![
                    BusEvent::read_of(register, Ok(before)),
                    BusEvent::write_of(register, merged(before, mask, value), result),
                ]);
                result
            },
        }
    }
}

} // verus!
