//! One transmit-and-receive exchange with a card.
//!
//! A [`TransceiveSession`] holds what is to be sent. Running it clears the
//! chip's interrupt flags and FIFO, loads the FIFO, sets the bit framing,
//! issues a transceive and, when the chip has finished, collects what was
//! received. The first transfer that fails ends the exchange.
use vstd::prelude::*;
use crate::access::{masked_write_run, RegisterAccess};
use crate::channel::{clear, level, level_of, pull, pull_run, pulled, push, push_run};
use crate::command::{execute_run, CommandExecutor, CompletionStatus, ExecutorState};
use crate::error::Error;
use crate::fifo::{FifoBuffer, FIFO_CAPACITY};
use crate::register::{
    Command, Register, COLL_ERR, COLL_POS_MASK, COLL_POS_NOT_VALID, CRC_ERR, FATAL_ERROR_MASK,
    FLUSH_BUFFER, IRQ_ALL, RX_LAST_BITS_MASK, TX_LAST_BITS_MASK,
};
use crate::transport::{BusError, BusEvent, BusTransport, Clock};

verus! {

/// Whether a card answered.
#[derive(Debug, Clone, Copy, PartialEq, Eq, Structural)]
pub enum ExchangeStatus {
    /// The chip received a response.
    Received,
    /// No response came within the timeout. This is what an empty field looks
    /// like, not a fault.
    NoResponse,
}

/// The result of one exchange, with the received bytes as a sequence.
pub struct Exchange {
    /// Whether a card answered.
    pub status: ExchangeStatus,
    /// The received bytes, in the order in which they arrived.
    pub data: Seq<u8>,
    /// The number of valid bits in the last received byte; zero means that the
    /// whole byte is valid.
    pub last_bits: u8,
    /// The position of the first bit on which two cards collided, if the chip
    /// detected a collision and could tell where.
    pub collision: Option<u8>,
    /// Whether a response was received and the chip found no CRC error in it.
    pub crc_valid: bool,
}

/// The result of one exchange.
#[derive(Debug, PartialEq, Eq)]
pub struct TransceiveOutcome {
    /// Whether a card answered.
    pub status: ExchangeStatus,
    /// The received bytes, in the order in which they arrived.
    pub data: Vec<u8>,
    /// The number of valid bits in the last received byte; zero means that the
    /// whole byte is valid.
    pub last_bits: u8,
    /// The position of the first bit on which two cards collided, if the chip
    /// detected a collision and could tell where.
    pub collision: Option<u8>,
    /// Whether a response was received and the chip found no CRC error in it.
    pub crc_valid: bool,
}

impl View for TransceiveOutcome {
    type V = Exchange;

    open spec fn view(&self) -> Exchange {
        Exchange {
            status: self.status,
            data: self.data@,
            last_bits: self.last_bits,
            collision: self.collision,
            crc_valid: self.crc_valid,
        }
    }
}

/// The outcome of an exchange in which no card answered.
pub open spec fn no_response() -> Exchange {
    Exchange {
        status: ExchangeStatus::NoResponse,
        data: Seq::empty(),
        last_bits: 0,
        collision: None,
        crc_valid: false,
    }
}

/// The outcome of an exchange in which `data` was received, decoded from what
/// the chip's registers showed: `control` is *ControlReg*, `errors` the
/// reported bits of *ErrorReg*, and `coll` is *CollReg* if it was read.
pub open spec fn received(data: Seq<u8>, control: u8, errors: u8, coll: Option<u8>) -> Exchange {
    Exchange {
        status: ExchangeStatus::Received,
        data,
        last_bits: control & RX_LAST_BITS_MASK,
        collision: match coll {
            Some(value) => if value & COLL_POS_NOT_VALID == 0 {
                Some(value & COLL_POS_MASK)
            } else {
                None
            },
            None => None,
        },
        crc_valid: errors & CRC_ERR == 0,
    }
}

/// The view of an exchange's result.
pub open spec fn exchanged(result: Result<TransceiveOutcome, Error>) -> Result<Exchange, Error> {
    match result {
        Ok(outcome) => Ok(outcome@),
        Err(error) => Err(error),
    }
}

/// The preparation of an exchange, as it shows on the bus: the interrupt flags
/// are cleared, the FIFO is flushed, `payload` is pushed, and the number of
/// bits to send of the last byte is set by a masked write to *BitFramingReg*.
#[verifier::opaque]
pub open spec fn prepare_run(
    traffic: Seq<BusEvent>,
    payload: Seq<u8>,
    tx_last_bits: u8,
    result: Result<(), Error>,
) -> bool {
    &&& traffic.len() >= 1
    &&& traffic[0].writes(Register::ComIrqReg, IRQ_ALL)
    &&& match traffic[0].failure() {
        Some(e) => traffic.len() == 1 && result == Err::<(), Error>(Error::Bus(e)),
        None => {
            &&& traffic.len() >= 2
            &&& traffic[1].writes(Register::FIFOLevelReg, FLUSH_BUFFER)
            &&& match traffic[1].failure() {
                Some(e) => traffic.len() == 2 && result == Err::<(), Error>(Error::Bus(e)),
                None => exists|k: int, loaded: Result<(), Error>|
                    {
                        &&& 2 <= k <= traffic.len()
                        &&& #[trigger] push_run(traffic.subrange(2, k), payload, loaded)
                        &&& match loaded {
                            Err(error) => k == traffic.len() && result == Err::<(), Error>(error),
                            Ok(()) => exists|framed: Result<(), BusError>|
                                {
                                    &&& #[trigger] masked_write_run(
                                        traffic.skip(k),
                                        Register::BitFramingReg,
                                        TX_LAST_BITS_MASK,
                                        tx_last_bits,
                                        framed,
                                    )
                                    &&& result == match framed {
                                        Ok(()) => Ok::<(), Error>(()),
                                        Err(e) => Err::<(), Error>(Error::Bus(e)),
                                    }
                                },
                        }
                    },
            }
        },
    }
}

/// The end of an exchange in which `data` was received, as it shows on the
/// bus: *ControlReg* is read and, if `errors` reports a collision, *CollReg*.
#[verifier::opaque]
pub open spec fn finish_run(
    traffic: Seq<BusEvent>,
    errors: u8,
    data: Seq<u8>,
    result: Result<Exchange, Error>,
) -> bool {
    &&& traffic.len() >= 1
    &&& traffic[0].reads(Register::ControlReg)
    &&& match traffic[0].byte() {
        None => traffic.len() == 1 && traffic[0].failure() is Some && result == Err::<
            Exchange,
            Error,
        >(Error::Bus(traffic[0].failure().unwrap())),
        Some(control) => if errors & COLL_ERR != 0 {
            &&& traffic.len() == 2
            &&& traffic[1].reads(Register::CollReg)
            &&& match traffic[1].byte() {
                None => traffic[1].failure() is Some && result == Err::<Exchange, Error>(
                    Error::Bus(traffic[1].failure().unwrap()),
                ),
                Some(coll) => result == Ok::<Exchange, Error>(
                    received(data, control, errors, Some(coll)),
                ),
            }
        } else {
            traffic.len() == 1 && result == Ok::<Exchange, Error>(
                received(data, control, errors, None),
            )
        },
    }
}

/// The collection of a response, as it shows on the bus: the FIFO level is
/// read, as many bytes are pulled, and [`finish_run`] follows.
#[verifier::opaque]
pub open spec fn collect_run(
    traffic: Seq<BusEvent>,
    errors: u8,
    result: Result<Exchange, Error>,
) -> bool {
    &&& traffic.len() >= 1
    &&& traffic[0].reads(Register::FIFOLevelReg)
    &&& match traffic[0].byte() {
        None => traffic.len() == 1 && traffic[0].failure() is Some && result == Err::<
            Exchange,
            Error,
        >(Error::Bus(traffic[0].failure().unwrap())),
        Some(raw) => exists|k: int, taken: Result<Seq<u8>, Error>|
            {
                &&& 1 <= k <= traffic.len()
                &&& #[trigger] pull_run(traffic.subrange(1, k), level_of(raw) as nat, taken)
                &&& match taken {
                    Err(error) => k == traffic.len() && result == Err::<Exchange, Error>(error),
                    Ok(data) => finish_run(traffic.skip(k), errors, data, result),
                }
            },
    }
}

/// What follows the wait for the transceive, given how the wait ended.
#[verifier::opaque]
pub open spec fn conclude_run(
    traffic: Seq<BusEvent>,
    status: Result<CompletionStatus, Error>,
    result: Result<Exchange, Error>,
) -> bool {
    match status {
        Err(error) => traffic.len() == 0 && result == Err::<Exchange, Error>(error),
        Ok(CompletionStatus::Timeout) => traffic.len() == 0 && result == Ok::<Exchange, Error>(
            no_response(),
        ),
        Ok(CompletionStatus::Completed) => collect_run(traffic, 0, result),
        Ok(CompletionStatus::ChipError(errors)) => if errors & FATAL_ERROR_MASK != 0 {
            traffic.len() == 0 && result == Err::<Exchange, Error>(Error::Chip(errors))
        } else {
            collect_run(traffic, errors, result)
        },
    }
}

/// A whole exchange, as it shows on the bus and on the clock: the
/// preparation, the transceive command with its wait of `ticks` ticks, and
/// what follows it.
#[verifier::opaque]
pub open spec fn session_run(
    traffic: Seq<BusEvent>,
    ticks: nat,
    payload: Seq<u8>,
    tx_last_bits: u8,
    timeout: u64,
    result: Result<Exchange, Error>,
) -> bool {
    exists|k: int, prepared: Result<(), Error>|
        {
            &&& 0 <= k <= traffic.len()
            &&& #[trigger] prepare_run(traffic.take(k), payload, tx_last_bits, prepared)
            &&& match prepared {
                Err(error) => k == traffic.len() && ticks == 0 && result == Err::<Exchange, Error>(
                    error,
                ),
                Ok(()) => exists|m: int, status: Result<CompletionStatus, Error>|
                    {
                        &&& k <= m <= traffic.len()
                        &&& #[trigger] execute_run(
                            traffic.subrange(k, m),
                            ticks,
                            Command::Transceive,
                            timeout,
                            status,
                        )
                        &&& conclude_run(traffic.skip(m), status, result)
                    },
            }
        }
}

impl TransceiveOutcome {
    /// The outcome of an exchange in which no card answered.
    pub fn absent() -> (outcome: Self)
        ensures
            outcome@ == no_response(),
    {
        TransceiveOutcome {
            status: ExchangeStatus::NoResponse,
            data: Vec::new(),
            last_bits: 0,
            collision: None,
            crc_valid: false,
        }
    }

    /// Decodes the outcome of an exchange in which `data` was received from
    /// what the chip's registers showed: `control` is *ControlReg*, `errors`
    /// the reported bits of *ErrorReg*, and `coll` is *CollReg* if it was
    /// read.
    pub fn decode(data: Vec<u8>, control: u8, errors: u8, coll: Option<u8>) -> (outcome: Self)
        ensures
            outcome@ == received(data@, control, errors, coll),
    {
        let collision = match coll {
            Some(value) => if value & COLL_POS_NOT_VALID == 0 {
                Some(value & COLL_POS_MASK)
            } else {
                None
            },
            None => None,
        };
        TransceiveOutcome {
            status: ExchangeStatus::Received,
            data,
            last_bits: control & RX_LAST_BITS_MASK,
            collision,
            crc_valid: errors & CRC_ERR == 0,
        }
    }
}

/// What is needed for one exchange: the bytes to send, the number of bits to
/// send of the last byte, and the time to wait for the response.
pub struct TransceiveSession {
    outbound: FifoBuffer,
    tx_last_bits: u8,
    timeout: u64,
}

impl TransceiveSession {
    /// The bytes to send.
    pub closed spec fn payload(&self) -> Seq<u8> {
        self.outbound@
    }

    /// The number of bits to send of the last byte, as it was given. Only the
    /// low three bits reach the chip; zero means all eight.
    pub closed spec fn last_bits(&self) -> u8 {
        self.tx_last_bits
    }

    /// The number of ticks to wait for the response.
    pub closed spec fn timeout(&self) -> u64 {
        self.timeout
    }

    /// Stages an exchange that sends `payload`.
    ///
    /// Fails with [`Error::PayloadTooLarge`] exactly when `payload` is longer
    /// than the FIFO.
    pub fn new(payload: &[u8], tx_last_bits: u8, timeout: u64) -> (result: Result<Self, Error>)
        ensures
            result is Ok <==> payload@.len() <= FIFO_CAPACITY,
            result matches Ok(session) ==> session.payload() == payload@ && session.last_bits()
                == tx_last_bits && session.timeout() == timeout,
            result matches Err(error) ==> error == Error::PayloadTooLarge,
    {
        let mut outbound = FifoBuffer::new();
        match outbound.push(payload) {
            Ok(()) => {
                assert(Seq::<u8>::empty() + payload@ =~= payload@);
                Ok(TransceiveSession { outbound, tx_last_bits, timeout })
            },
            Err(_) => Err(Error::PayloadTooLarge),
        }
    }

    /// Runs the exchange.
    ///
    /// While a reset is pending the exchange is refused with
    /// [`Error::ResetPending`], and nothing goes over the bus. Otherwise
    /// [`session_run`] says what is done and returned. A wait that times out
    /// is no error: the outcome then says that no card answered.
    pub fn run<B: BusTransport, C: Clock>(
        self,
        access: &mut RegisterAccess<B>,
        executor: &mut CommandExecutor<C>,
    ) -> (result: Result<TransceiveOutcome, Error>)
        ensures
            final(access).continues(old(access)),
            final(executor).ticks() >= old(executor).ticks(),
            old(executor).state() == ExecutorState::SoftReset ==> {
                &&& result matches Err(Error::ResetPending)
                &&& final(access).history() == old(access).history()
                &&& final(executor).state() == ExecutorState::SoftReset
                &&& final(executor).ticks() == old(executor).ticks()
            },
            old(executor).state() != ExecutorState::SoftReset ==> {
                &&& session_run(
                    final(access).since(old(access)),
                    (final(executor).ticks() - old(executor).ticks()) as nat,
                    self.payload(),
                    self.last_bits(),
                    self.timeout(),
                    exchanged(result),
                )
                &&& final(executor).state() == old(executor).state() || final(executor).state()
                    == ExecutorState::Transceive
                &&& result is Ok ==> final(executor).state() == ExecutorState::Transceive
            },
    {
        if executor.current() == ExecutorState::SoftReset {
            proof {
            access.lemma_continues_self();
        }
            return Err(Error::ResetPending);
        }
        let payload = self.outbound.contents();
        let prepared = prepare(access, payload.as_slice(), self.tx_last_bits);
        let ghost ready = *access;
        if let Err(error) = prepared {
            proof {
                lemma_session_refused(
                    access.since(old(access)),
                    self.payload(),
                    self.last_bits(),
                    self.timeout(),
                    error,
                );
            }
            return Err(error);
        }
        assert(prepared == Ok::<(), Error>(prepared->Ok_0));
        let status = executor.execute(access, Command::Transceive, self.timeout);
        let ghost done = *access;
        let result = conclude(access, status);
        proof {
            access.lemma_since_concat(&ready, &done);
            access.lemma_since_concat(old(access), &ready);
            assert(access.since(old(access)) =~= ready.since(old(access)) + done.since(&ready)
                + access.since(&done));
            lemma_session_end(
                access.since(old(access)),
                ready.since(old(access)),
                done.since(&ready),
                access.since(&done),
                (executor.ticks() - old(executor).ticks()) as nat,
                self.payload(),
                self.last_bits(),
                self.timeout(),
                status,
                exchanged(result),
            );
        }
        result
    }
}

/// Stages and runs one exchange that sends `payload`.
///
/// A payload that is longer than the FIFO is refused with
/// [`Error::PayloadTooLarge`] before anything goes over the bus. Otherwise
/// this is [`TransceiveSession::run`].
pub fn transceive<B: BusTransport, C: Clock>(
    access: &mut RegisterAccess<B>,
    executor: &mut CommandExecutor<C>,
    payload: &[u8],
    tx_last_bits: u8,
    timeout: u64,
) -> (result: Result<TransceiveOutcome, Error>)
    ensures
        final(access).continues(old(access)),
        final(executor).ticks() >= old(executor).ticks(),
        payload@.len() > FIFO_CAPACITY ==> {
            &&& result matches Err(Error::PayloadTooLarge)
            &&& final(access).history() == old(access).history()
            &&& final(executor).state() == old(executor).state()
            &&& final(executor).ticks() == old(executor).ticks()
        },
        payload@.len() <= FIFO_CAPACITY && old(executor).state() == ExecutorState::SoftReset ==> {
            &&& result matches Err(Error::ResetPending)
            &&& final(access).history() == old(access).history()
            &&& final(executor).state() == ExecutorState::SoftReset
            &&& final(executor).ticks() == old(executor).ticks()
        },
        payload@.len() <= FIFO_CAPACITY && old(executor).state() != ExecutorState::SoftReset ==> {
            &&& session_run(
                final(access).since(old(access)),
                (final(executor).ticks() - old(executor).ticks()) as nat,
                payload@,
                tx_last_bits,
                timeout,
                exchanged(result),
            )
            &&& final(executor).state() == old(executor).state() || final(executor).state()
                == ExecutorState::Transceive
            &&& result is Ok ==> final(executor).state() == ExecutorState::Transceive
        },
{
    match TransceiveSession::new(payload, tx_last_bits, timeout) {
        Err(error) => {
            proof {
            access.lemma_continues_self();
        }
            Err(error)
        },
        Ok(session) => session.run(access, executor),
    }
}

/// Prepares the chip for an exchange; see [`prepare_run`].
fn prepare<B: BusTransport>(
    access: &mut RegisterAccess<B>,
    payload: &[u8],
    tx_last_bits: u8,
) -> (result: Result<(), Error>)
    ensures
        final(access).continues(old(access)),
        prepare_run(final(access).since(old(access)), payload@, tx_last_bits, result),
{
    reveal(prepare_run);
    let cleared = access.write(Register::ComIrqReg, IRQ_ALL);
    let ghost first = BusEvent::write_of(Register::ComIrqReg, IRQ_ALL, cleared);
    assert(access.since(old(access)) =~= seq![first]);
    if let Err(e) = cleared {
        return Err(Error::Bus(e));
    }
    let ghost cleared_at = *access;
    let flushed = clear(access);
    proof {
        access.lemma_since_concat(old(access), &cleared_at);
    }
    let ghost second = BusEvent::write_of(Register::FIFOLevelReg, FLUSH_BUFFER, flushed);
    assert(access.since(old(access)) =~= seq![first, second]);
    if let Err(e) = flushed {
        return Err(Error::Bus(e));
    }
    let ghost flushed_at = *access;
    let loaded = push(access, payload);
    let ghost loaded_at = *access;
    proof {
        access.lemma_since_concat(old(access), &flushed_at);
        assert(access.since(old(access)).subrange(2, access.since(old(access)).len() as int)
            =~= access.since(&flushed_at));
    }
    if let Err(error) = loaded {
        return Err(error);
    }
    let framed = access.write_masked(Register::BitFramingReg, TX_LAST_BITS_MASK, tx_last_bits);
    proof {
        access.lemma_since_concat(&flushed_at, &loaded_at);
        access.lemma_since_concat(old(access), &flushed_at);
        let traffic = access.since(old(access));
        let k = 2 + loaded_at.since(&flushed_at).len() as int;
        assert(traffic.subrange(2, k) =~= loaded_at.since(&flushed_at));
        assert(traffic.skip(k) =~= access.since(&loaded_at));
        assert(traffic[0] == first && traffic[1] == second);
        assert(push_run(traffic.subrange(2, k), payload@, loaded));
    }
    match framed {
        Ok(()) => Ok(()),
        Err(e) => Err(Error::Bus(e)),
    }
}

/// Does what follows the wait for the transceive; see [`conclude_run`].
fn conclude<B: BusTransport>(
    access: &mut RegisterAccess<B>,
    status: Result<CompletionStatus, Error>,
) -> (result: Result<TransceiveOutcome, Error>)
    ensures
        final(access).continues(old(access)),
        conclude_run(final(access).since(old(access)), status, exchanged(result)),
        result is Ok ==> status is Ok,
{
    reveal(conclude_run);
    proof {
            access.lemma_continues_self();
        }
    assert(access.since(old(access)) =~= Seq::<BusEvent>::empty());
    match status {
        Err(error) => Err(error),
        Ok(CompletionStatus::Timeout) => Ok(TransceiveOutcome::absent()),
        Ok(CompletionStatus::Completed) => collect(access, 0),
        Ok(CompletionStatus::ChipError(errors)) => {
            if errors & FATAL_ERROR_MASK != 0 {
                Err(Error::Chip(errors))
            } else {
                collect(access, errors)
            }
        },
    }
}

/// Collects a response; see [`collect_run`].
fn collect<B: BusTransport>(access: &mut RegisterAccess<B>, errors: u8) -> (result: Result<
    TransceiveOutcome,
    Error,
>)
    ensures
        final(access).continues(old(access)),
        collect_run(final(access).since(old(access)), errors, exchanged(result)),
{
    reveal(collect_run);
    reveal(finish_run);
    let count = match level(access) {
        Ok(count) => count,
        Err(e) => {
            return Err(Error::Bus(e));
        },
    };
    let ghost counted_at = *access;
    let ghost raw = counted_at.since(old(access))[0].byte().unwrap();
    let taken = pull(access, count as usize);
    let ghost taken_at = *access;
    proof {
        access.lemma_since_concat(old(access), &counted_at);
        assert(access.since(old(access)).subrange(1, access.since(old(access)).len() as int)
            =~= access.since(&counted_at));
    }
    let data = match taken {
        Ok(data) => data,
        Err(error) => {
            return Err(error);
        },
    };
    let reply = access.read(Register::ControlReg);
    proof {
        access.lemma_since_concat(&counted_at, &taken_at);
        access.lemma_since_concat(old(access), &counted_at);
    }
    let control = match reply {
        Ok(control) => control,
        Err(e) => {
            proof {
                access.lemma_since_concat(&counted_at, &taken_at);
                access.lemma_since_concat(old(access), &counted_at);
                let traffic = access.since(old(access));
                let k = 1 + taken_at.since(&counted_at).len() as int;
                assert(traffic.subrange(1, k) =~= taken_at.since(&counted_at));
                assert(traffic.skip(k) =~= seq![BusEvent::read_of(Register::ControlReg, Err(e))]);
                assert(pull_run(traffic.subrange(1, k), level_of(raw) as nat, pulled(taken)));
            }
            return Err(Error::Bus(e));
        },
    };
    let ghost controlled_at = *access;
    let coll = if errors & COLL_ERR != 0 {
        let reply = access.read(Register::CollReg);
        proof {
            access.lemma_since_concat(&taken_at, &controlled_at);
        }
        match reply {
            Ok(coll) => Some(coll),
            Err(e) => {
                proof {
                    access.lemma_since_concat(&counted_at, &taken_at);
                    access.lemma_since_concat(old(access), &counted_at);
                    let traffic = access.since(old(access));
                    let k = 1 + taken_at.since(&counted_at).len() as int;
                    assert(traffic.subrange(1, k) =~= taken_at.since(&counted_at));
                    assert(traffic.skip(k) =~= seq![
                        BusEvent::read_of(Register::ControlReg, Ok(control)),
                        BusEvent::read_of(Register::CollReg, Err(e)),
                    ]);
                    assert(pull_run(traffic.subrange(1, k), level_of(raw) as nat, pulled(taken)));
                }
                return Err(Error::Bus(e));
            },
        }
    } else {
        None
    };
    proof {
        access.lemma_since_concat(&counted_at, &taken_at);
        access.lemma_since_concat(old(access), &counted_at);
        let traffic = access.since(old(access));
        let k = 1 + taken_at.since(&counted_at).len() as int;
        assert(traffic.subrange(1, k) =~= taken_at.since(&counted_at));
        if errors & COLL_ERR != 0 {
            assert(traffic.skip(k) =~= seq![
                BusEvent::read_of(Register::ControlReg, Ok(control)),
                BusEvent::read_of(Register::CollReg, Ok(coll.unwrap())),
            ]);
        } else {
            assert(traffic.skip(k) =~= seq![BusEvent::read_of(Register::ControlReg, Ok(control))]);
        }
        assert(pull_run(traffic.subrange(1, k), level_of(raw) as nat, pulled(taken)));
    }
    Ok(TransceiveOutcome::decode(data, control, errors, coll))
}

/// An exchange whose preparation failed is a run of a session.
proof fn lemma_session_refused(
    traffic: Seq<BusEvent>,
    payload: Seq<u8>,
    tx_last_bits: u8,
    timeout: u64,
    error: Error,
)
    requires
        prepare_run(traffic, payload, tx_last_bits, Err(error)),
    ensures
        session_run(traffic, 0, payload, tx_last_bits, timeout, Err(error)),
{
    reveal(session_run);
    let k = traffic.len() as int;
    let prepared: Result<(), Error> = Err(error);
    assert(traffic.take(k) =~= traffic);
    assert(prepare_run(traffic.take(k), payload, tx_last_bits, prepared));
}

/// An exchange in three parts, the preparation, the command and what follows
/// it, is a run of a session.
proof fn lemma_session_end(
    traffic: Seq<BusEvent>,
    lead: Seq<BusEvent>,
    command: Seq<BusEvent>,
    tail: Seq<BusEvent>,
    ticks: nat,
    payload: Seq<u8>,
    tx_last_bits: u8,
    timeout: u64,
    status: Result<CompletionStatus, Error>,
    result: Result<Exchange, Error>,
)
    requires
        traffic == lead + command + tail,
        prepare_run(lead, payload, tx_last_bits, Ok(())),
        execute_run(command, ticks, Command::Transceive, timeout, status),
        conclude_run(tail, status, result),
    ensures
        session_run(traffic, ticks, payload, tx_last_bits, timeout, result),
{
    reveal(session_run);
    let k = lead.len() as int;
    let m = k + command.len();
    assert(traffic.take(k) =~= lead);
    assert(traffic.subrange(k, m) =~= command);
    assert(traffic.skip(m) =~= tail);
    let prepared: Result<(), Error> = Ok(());
    assert(prepare_run(traffic.take(k), payload, tx_last_bits, prepared));
    assert(execute_run(traffic.subrange(k, m), ticks, Command::Transceive, timeout, status));
}

} // verus!
