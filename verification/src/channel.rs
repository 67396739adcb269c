//! The chip's FIFO, reached through *FIFODataReg* and *FIFOLevelReg*.
//!
//! The FIFO belongs to the hardware. Nothing here remembers its level: every
//! operation that depends on the level reads it first.
use vstd::prelude::*;
use crate::access::RegisterAccess;
use crate::error::Error;
use crate::fifo::FIFO_CAPACITY;
use crate::register::{Register, FIFO_LEVEL_MASK, FLUSH_BUFFER};
use crate::transport::{BusError, BusEvent, BusTransport};

verus! {

/// The FIFO level that a value read from *FIFOLevelReg* reports.
pub open spec fn level_of(raw: u8) -> u8 {
    raw & FIFO_LEVEL_MASK
}

/// The number of bytes that a FIFO at level `level` still takes.
pub open spec fn room_at(level: u8) -> nat {
    if level >= FIFO_CAPACITY {
        0
    } else {
        (FIFO_CAPACITY - level) as nat
    }
}

/// What it means for `traffic` to be a run of writes of `bytes` to `register`,
/// in order, that stops at the first write that fails: all of `bytes` were
/// written and `result` is `Ok`, or the last write failed and `result` is its
/// error.
pub open spec fn burst_run(
    traffic: Seq<BusEvent>,
    register: Register,
    bytes: Seq<u8>,
    result: Result<(), Error>,
) -> bool {
    &&& traffic.len() <= bytes.len()
    &&& forall|i: int| 0 <= i < traffic.len() ==> (#[trigger] traffic[i]).writes(register, bytes[i])
    &&& forall|i: int| 0 <= i < traffic.len() - 1 ==> (#[trigger] traffic[i]).failure() is None
    &&& match result {
        Ok(()) => traffic.len() == bytes.len() && (traffic.len() > 0 ==> traffic.last().failure()
            is None),
        Err(error) => traffic.len() > 0 && traffic.last().failure() is Some && error == Error::Bus(
            traffic.last().failure().unwrap(),
        ),
    }
}

/// What it means for `traffic` to be a run of `count` reads of `register` that
/// stops at the first read that fails: `result` holds the bytes read, in
/// order, or the error of the last read.
pub open spec fn drain_run(
    traffic: Seq<BusEvent>,
    register: Register,
    count: nat,
    result: Result<Seq<u8>, Error>,
) -> bool {
    &&& traffic.len() <= count
    &&& forall|i: int| 0 <= i < traffic.len() ==> (#[trigger] traffic[i]).reads(register)
    &&& forall|i: int| 0 <= i < traffic.len() - 1 ==> (#[trigger] traffic[i]).failure() is None
    &&& match result {
        Ok(bytes) => traffic.len() == count && bytes.len() == count && forall|i: int|
            0 <= i < count ==> (#[trigger] traffic[i]).byte() == Some(bytes[i]),
        Err(error) => traffic.len() > 0 && traffic.last().failure() is Some && error == Error::Bus(
            traffic.last().failure().unwrap(),
        ),
    }
}

/// What [`push`] puts on the bus and returns: a read of the level, and, if the
/// level leaves room for all of `bytes`, the writes of `bytes` to the FIFO.
pub open spec fn push_run(
    traffic: Seq<BusEvent>,
    bytes: Seq<u8>,
    result: Result<(), Error>,
) -> bool {
    &&& traffic.len() >= 1
    &&& traffic[0].reads(Register::FIFOLevelReg)
    &&& match traffic[0].byte() {
        None => traffic.len() == 1 && traffic[0].failure() is Some && result == Err::<(), Error>(
            Error::Bus(traffic[0].failure().unwrap()),
        ),
        Some(raw) => if bytes.len() > room_at(level_of(raw)) {
            traffic.len() == 1 && result == Err::<(), Error>(Error::Overflow)
        } else {
            burst_run(traffic.skip(1), Register::FIFODataReg, bytes, result)
        },
    }
}

/// What [`pull`] puts on the bus and returns: a read of the level, and, if the
/// FIFO holds `count` bytes, `count` reads from the FIFO.
pub open spec fn pull_run(
    traffic: Seq<BusEvent>,
    count: nat,
    result: Result<Seq<u8>, Error>,
) -> bool {
    &&& traffic.len() >= 1
    &&& traffic[0].reads(Register::FIFOLevelReg)
    &&& match traffic[0].byte() {
        None => traffic.len() == 1 && traffic[0].failure() is Some && result == Err::<
            Seq<u8>,
            Error,
        >(Error::Bus(traffic[0].failure().unwrap())),
        Some(raw) => if count > level_of(raw) {
            traffic.len() == 1 && result == Err::<Seq<u8>, Error>(Error::Underflow)
        } else {
            drain_run(traffic.skip(1), Register::FIFODataReg, count, result)
        },
    }
}

/// What [`level`] puts on the bus and returns: one read of *FIFOLevelReg*,
/// whose level bits are the result.
pub open spec fn level_run(traffic: Seq<BusEvent>, result: Result<u8, BusError>) -> bool {
    &&& traffic.len() == 1
    &&& traffic[0].reads(Register::FIFOLevelReg)
    &&& match traffic[0].byte() {
        None => traffic[0].failure() is Some && result == Err::<u8, BusError>(
            traffic[0].failure().unwrap(),
        ),
        Some(raw) => result == Ok::<u8, BusError>(level_of(raw)),
    }
}

/// The view of a pull's result: the bytes as a sequence.
pub open spec fn pulled(result: Result<Vec<u8>, Error>) -> Result<Seq<u8>, Error> {
    match result {
        Ok(bytes) => Ok(bytes@),
        Err(error) => Err(error),
    }
}

/// Reads the number of bytes in the FIFO.
pub fn level<B: BusTransport>(access: &mut RegisterAccess<B>) -> (result: Result<u8, BusError>)
    ensures
        final(access).continues(old(access)),
        level_run(final(access).since(old(access)), result),
{
    let reply = access.read(Register::FIFOLevelReg);
    assert(access.since(old(access)) =~= seq![BusEvent::read_of(Register::FIFOLevelReg, reply)]);
    match reply {
        Ok(raw) => Ok(raw & FIFO_LEVEL_MASK),
        Err(e) => Err(e),
    }
}

/// Clears the FIFO by writing the flush bit to *FIFOLevelReg*.
pub fn clear<B: BusTransport>(access: &mut RegisterAccess<B>) -> (result: Result<(), BusError>)
    ensures
        final(access).history() == old(access).history().push(
            BusEvent::write_of(Register::FIFOLevelReg, FLUSH_BUFFER, result),
        ),
        final(access).continues(old(access)),
{
    access.write(Register::FIFOLevelReg, FLUSH_BUFFER)
}

/// Appends `bytes` to the FIFO, all of them or none.
///
/// Reads the level first. Fails with [`Error::Overflow`], before anything is
/// written, when `bytes` is longer than the room that the level leaves.
pub fn push<B: BusTransport>(access: &mut RegisterAccess<B>, bytes: &[u8]) -> (result: Result<
    (),
    Error,
>)
    ensures
        final(access).continues(old(access)),
        push_run(final(access).since(old(access)), bytes@, result),
{
    let raw = match access.read(Register::FIFOLevelReg) {
        Ok(raw) => raw,
        Err(e) => {
            assert(access.since(old(access)) =~= seq![
                BusEvent::read_of(Register::FIFOLevelReg, Err(e)),
            ]);
            return Err(Error::Bus(e));
        },
    };
    let level = raw & FIFO_LEVEL_MASK;
    let ghost first = BusEvent::read_of(Register::FIFOLevelReg, Ok(raw));
    assert(access.since(old(access)) =~= seq![first]);
    let room: usize = if level as usize >= FIFO_CAPACITY {
        0
    } else {
        FIFO_CAPACITY - level as usize
    };
    if bytes.len() > room {
        return Err(Error::Overflow);
    }
    let mut i: usize = 0;
    while i < bytes.len()
        invariant
            i <= bytes@.len(),
            bytes@.len() <= room_at(level_of(raw)),
            first == BusEvent::read_of(Register::FIFOLevelReg, Ok(raw)),
            access.continues(old(access)),
            access.since(old(access)).len() == 1 + i,
            access.since(old(access))[0] == first,
            forall|k: int|
                0 <= k < i ==> (#[trigger] access.since(old(access))[1 + k]).writes(
                    Register::FIFODataReg,
                    bytes@[k],
                ),
            forall|k: int|
                0 <= k < i ==> (#[trigger] access.since(old(access))[1 + k]).failure() is None,
        decreases bytes@.len() - i,
    {
        let ghost before = *access;
        let reply = access.write(Register::FIFODataReg, bytes[i]);
        proof {
            access.lemma_since_concat(old(access), &before);
        }
        assert(access.since(old(access)) =~= before.since(old(access)).push(
            BusEvent::write_of(Register::FIFODataReg, bytes@[i as int], reply),
        ));
        if let Err(e) = reply {
            proof {
                let sent = access.since(old(access)).skip(1);
                assert forall|k: int| 0 <= k < sent.len() implies (#[trigger] sent[k]).writes(
                    Register::FIFODataReg,
                    bytes@[k],
                ) by {
                    assert(sent[k] == access.since(old(access))[1 + k]);
                }
                assert forall|k: int| 0 <= k < sent.len() - 1 implies (#[trigger] sent[k]).failure()
                    is None by {
                    assert(sent[k] == access.since(old(access))[1 + k]);
                }
            }
            return Err(Error::Bus(e));
        }
        i = i + 1;
    }
    proof {
        let sent = access.since(old(access)).skip(1);
        assert forall|k: int| 0 <= k < sent.len() implies (#[trigger] sent[k]).writes(
            Register::FIFODataReg,
            bytes@[k],
        ) && sent[k].failure() is None by {
            assert(sent[k] == access.since(old(access))[1 + k]);
        }
    }
    Ok(())
}

/// Removes the `count` oldest bytes from the FIFO and returns them, oldest
/// first.
///
/// Reads the level first. Fails with [`Error::Underflow`], before anything is
/// taken, when the level is below `count`.
pub fn pull<B: BusTransport>(access: &mut RegisterAccess<B>, count: usize) -> (result: Result<
    Vec<u8>,
    Error,
>)
    ensures
        final(access).continues(old(access)),
        pull_run(final(access).since(old(access)), count as nat, pulled(result)),
{
    let raw = match access.read(Register::FIFOLevelReg) {
        Ok(raw) => raw,
        Err(e) => {
            assert(access.since(old(access)) =~= seq![
                BusEvent::read_of(Register::FIFOLevelReg, Err(e)),
            ]);
            return Err(Error::Bus(e));
        },
    };
    let level = raw & FIFO_LEVEL_MASK;
    let ghost first = BusEvent::read_of(Register::FIFOLevelReg, Ok(raw));
    assert(access.since(old(access)) =~= seq![first]);
    if count > level as usize {
        return Err(Error::Underflow);
    }
    let mut bytes: Vec<u8> = Vec::new();
    let mut i: usize = 0;
    while i < count
        invariant
            i <= count <= level_of(raw),
            bytes@.len() == i,
            first == BusEvent::read_of(Register::FIFOLevelReg, Ok(raw)),
            access.continues(old(access)),
            access.since(old(access)).len() == 1 + i,
            access.since(old(access))[0] == first,
            forall|k: int|
                0 <= k < i ==> (#[trigger] access.since(old(access))[1 + k]).reads(
                    Register::FIFODataReg,
                ),
            forall|k: int|
                0 <= k < i ==> (#[trigger] access.since(old(access))[1 + k]).byte() == Some(
                    bytes@[k],
                ),
        decreases count - i,
    {
        let ghost before = *access;
        let reply = access.read(Register::FIFODataReg);
        proof {
            access.lemma_since_concat(old(access), &before);
        }
        assert(access.since(old(access)) =~= before.since(old(access)).push(
            BusEvent::read_of(Register::FIFODataReg, reply),
        ));
        match reply {
            Err(e) => {
                proof {
                    let taken = access.since(old(access)).skip(1);
                    assert forall|k: int| 0 <= k < taken.len() implies (#[trigger] taken[k]).reads(
                        Register::FIFODataReg,
                    ) by {
                        assert(taken[k] == access.since(old(access))[1 + k]);
                    }
                    assert forall|k: int| 0 <= k < taken.len() - 1 implies (
                    #[trigger] taken[k]).failure() is None by {
                        assert(taken[k] == access.since(old(access))[1 + k]);
                    }
                }
                return Err(Error::Bus(e));
            },
            Ok(byte) => {
                bytes.push(byte);
            },
        }
        i = i + 1;
    }
    proof {
        let taken = access.since(old(access)).skip(1);
        assert forall|k: int| 0 <= k < taken.len() implies (#[trigger] taken[k]).reads(
            Register::FIFODataReg,
        ) && taken[k].failure() is None && taken[k].byte() == Some(bytes@[k]) by {
            assert(taken[k] == access.since(old(access))[1 + k]);
        }
    }
    Ok(bytes)
}

} // verus!
