use mfrc522::access::{merge_masked, RegisterAccess};
use mfrc522::channel;
use mfrc522::command::{
    classify, completion_irq, transition, CommandExecutor, CompletionStatus, ExecutorState,
};
use mfrc522::error::Error;
use mfrc522::register::{Command, Register, RxGain};
use mfrc522::session::{transceive, ExchangeStatus, TransceiveOutcome, TransceiveSession};
use mfrc522::sim::{SimulatedChip, SimulatedClock};
use mfrc522::transport::{BusEvent, BusTransport, Clock};

fn chip() -> RegisterAccess<SimulatedChip> {
    RegisterAccess::new(SimulatedChip::new())
}

fn executor() -> CommandExecutor<SimulatedClock> {
    CommandExecutor::new(SimulatedClock::new())
}

#[test]
fn merge_masked_formula() {
    assert_eq!(merge_masked(0xAF, 0x70, 0x40), 0xCF);
    assert_eq!(merge_masked(0xFF, 0x0F, 0x00), 0xF0);
    assert_eq!(merge_masked(0x00, 0xFF, 0x5A), 0x5A);
    assert_eq!(merge_masked(0x5A, 0x00, 0xFF), 0x5A);
    for before in 0..=255u8 {
        for mask in [0x00u8, 0x01, 0x70, 0x80, 0x0F, 0xF0, 0xFF, 0x55] {
            for value in [0x00u8, 0xFF, 0x40, 0xA5] {
                assert_eq!(merge_masked(before, mask, value), (before & !mask) | (value & mask));
            }
        }
    }
}

#[test]
fn read_returns_what_was_written() {
    let mut access = chip();
    assert_eq!(access.read(Register::TxControlReg), Ok(0x00));
    assert_eq!(access.write(Register::TxControlReg, 0x83), Ok(()));
    assert_eq!(access.read(Register::TxControlReg), Ok(0x83));
    assert_eq!(access.bus().register(Register::TxControlReg), 0x83);
    assert_eq!(
        access.bus().transfers().as_slice(),
        &[
            BusEvent::Read { address: 0x14, reply: Ok(0x00) },
            BusEvent::Write { address: 0x14, value: 0x83, reply: Ok(()) },
            BusEvent::Read { address: 0x14, reply: Ok(0x83) },
        ]
    );
}

#[test]
fn masked_write_then_read_yields_merged_value() {
    for before in [0x00u8, 0xFF, 0xAF, 0x5A, 0x13] {
        for mask in 0..=255u8 {
            for value in [0x00u8, 0xFF, 0x40, 0xA5, 0x3C] {
                let mut access = chip();
                assert_eq!(access.write(Register::TxControlReg, before), Ok(()));
                assert_eq!(access.write_masked(Register::TxControlReg, mask, value), Ok(()));
                assert_eq!(
                    access.read(Register::TxControlReg),
                    Ok((before & !mask) | (value & mask))
                );
            }
        }
    }
}

#[test]
fn masked_write_is_one_read_and_one_write() {
    let mut access = chip();
    assert_eq!(access.write(Register::ModeReg, 0x3D), Ok(()));
    assert_eq!(access.write_masked(Register::ModeReg, 0x03, 0x02), Ok(()));
    assert_eq!(
        &access.bus().transfers()[1..],
        &[
            BusEvent::Read { address: 0x11, reply: Ok(0x3D) },
            BusEvent::Write { address: 0x11, value: 0x3E, reply: Ok(()) },
        ]
    );
}

#[test]
fn gain_write_keeps_reserved_bits() {
    let mut access = chip();
    assert_eq!(access.write(Register::RFCfgReg, 0x8F), Ok(()));
    assert_eq!(access.set_rx_gain(RxGain::DB33), Ok(()));
    assert_eq!(access.read(Register::RFCfgReg), Ok(0xCF));
    assert_eq!(access.rx_gain(), Ok(RxGain::DB33));
    assert_eq!(access.set_rx_gain(RxGain::DB18), Ok(()));
    assert_eq!(access.read(Register::RFCfgReg), Ok(0x8F));
    assert_eq!(access.rx_gain(), Ok(RxGain::DB18));
    assert_eq!(access.set_rx_gain(RxGain::DB48), Ok(()));
    assert_eq!(access.read(Register::RFCfgReg), Ok(0xFF));
}

#[test]
fn gain_then_ten_byte_payload_keeps_reserved_bits() {
    let mut access = chip();
    let mut executor = executor();
    assert_eq!(access.write(Register::RFCfgReg, 0x85), Ok(()));
    assert_eq!(access.set_rx_gain(RxGain::DB33), Ok(()));
    assert_eq!(access.bus().register(Register::RFCfgReg), 0xC5);
    let payload = [0x93, 0x70, 0x01, 0x02, 0x03, 0x04, 0x04, 0xAA, 0xBB, 0xCC];
    let outcome = transceive(&mut access, &mut executor, &payload, 0, 3).unwrap();
    assert_eq!(outcome.status, ExchangeStatus::NoResponse);
    assert_eq!(access.bus().register(Register::RFCfgReg), 0xC5);
    assert_eq!(access.bus().register(Register::RFCfgReg) & 0x8F, 0x85);
    assert_eq!(access.rx_gain(), Ok(RxGain::DB33));
    assert_eq!(access.bus().fifo(), payload.to_vec());
}

#[test]
fn channel_push_then_pull_returns_the_same_bytes() {
    for len in 0..=64usize {
        let bytes: Vec<u8> = (0..len).map(|i| (i * 5 + 1) as u8).collect();
        let mut access = chip();
        assert_eq!(channel::push(&mut access, &bytes), Ok(()));
        assert_eq!(channel::level(&mut access), Ok(len as u8));
        assert_eq!(channel::pull(&mut access, len), Ok(bytes));
        assert_eq!(channel::level(&mut access), Ok(0));
    }
}

#[test]
fn channel_push_beyond_capacity_overflows_and_writes_nothing() {
    let mut access = chip();
    let sixty: Vec<u8> = (0..60).collect();
    assert_eq!(channel::push(&mut access, &sixty), Ok(()));
    let before = access.bus().transfers().len();
    assert_eq!(channel::push(&mut access, &[1, 2, 3, 4, 5]), Err(Error::Overflow));
    assert_eq!(access.bus().transfers().len(), before + 1);
    assert_eq!(
        access.bus().transfers()[before],
        BusEvent::Read { address: 0x0A, reply: Ok(60) }
    );
    assert_eq!(access.bus().fifo(), sixty);
    assert_eq!(access.bus().register(Register::ErrorReg), 0x00);
    assert_eq!(channel::push(&mut access, &[1, 2, 3, 4]), Ok(()));
    assert_eq!(channel::level(&mut access), Ok(64));
    assert_eq!(channel::push(&mut access, &[0]), Err(Error::Overflow));
}

#[test]
fn channel_push_of_sixty_five_bytes_overflows() {
    let mut access = chip();
    assert_eq!(channel::push(&mut access, &[0x11; 65]), Err(Error::Overflow));
    assert_eq!(access.bus().fifo(), Vec::<u8>::new());
}

#[test]
fn channel_pull_beyond_level_underflows_and_takes_nothing() {
    let mut access = chip();
    assert_eq!(channel::pull(&mut access, 1), Err(Error::Underflow));
    assert_eq!(channel::push(&mut access, &[9, 8, 7]), Ok(()));
    let before = access.bus().transfers().len();
    assert_eq!(channel::pull(&mut access, 4), Err(Error::Underflow));
    assert_eq!(access.bus().transfers().len(), before + 1);
    assert_eq!(access.bus().fifo(), vec![9, 8, 7]);
    assert_eq!(channel::pull(&mut access, 2), Ok(vec![9, 8]));
    assert_eq!(channel::pull(&mut access, 1), Ok(vec![7]));
}

#[test]
fn channel_clear_writes_the_flush_bit() {
    let mut access = chip();
    assert_eq!(channel::push(&mut access, &[1, 2, 3]), Ok(()));
    let before = access.bus().transfers().len();
    assert_eq!(channel::clear(&mut access), Ok(()));
    assert_eq!(
        access.bus().transfers()[before],
        BusEvent::Write { address: 0x0A, value: 0x80, reply: Ok(()) }
    );
    assert_eq!(channel::level(&mut access), Ok(0));
}

#[test]
fn raw_write_to_full_fifo_sets_buffer_overflow() {
    let mut bus = SimulatedChip::new();
    for i in 0..64u8 {
        assert_eq!(bus.write(0x09, i), Ok(()));
    }
    assert_eq!(bus.register(Register::ErrorReg), 0x00);
    assert_eq!(bus.write(0x09, 0xEE), Ok(()));
    assert_eq!(bus.register(Register::ErrorReg), 0x10);
    assert_eq!(bus.fifo().len(), 64);
    assert_eq!(bus.read(0x0A), Ok(64));
    assert_eq!(bus.read(0x09), Ok(0));
    assert_eq!(bus.read(0x0A), Ok(63));
}

#[test]
fn interrupt_flags_follow_the_set_bit() {
    let mut bus = SimulatedChip::new();
    assert_eq!(bus.write(0x04, 0x80 | 0x30), Ok(()));
    assert_eq!(bus.read(0x04), Ok(0x30));
    assert_eq!(bus.write(0x04, 0x10), Ok(()));
    assert_eq!(bus.read(0x04), Ok(0x20));
    assert_eq!(bus.write(0x04, 0x7F), Ok(()));
    assert_eq!(bus.read(0x04), Ok(0x00));
}

#[test]
fn simulated_clock_counts_ticks() {
    let mut clock = SimulatedClock::new();
    assert_eq!(clock.ticks(), 0);
    clock.wait_tick();
    clock.wait_tick();
    assert_eq!(clock.ticks(), 2);
}

#[test]
fn transition_rule() {
    assert_eq!(transition(ExecutorState::Idle, Command::Transceive), ExecutorState::Transceive);
    assert_eq!(transition(ExecutorState::Transceive, Command::Idle), ExecutorState::Idle);
    assert_eq!(transition(ExecutorState::Receive, Command::CalcCRC), ExecutorState::CalcCRC);
    assert_eq!(transition(ExecutorState::Idle, Command::SoftReset), ExecutorState::SoftReset);
    assert_eq!(transition(ExecutorState::Idle, Command::Mem), ExecutorState::Mem);
    assert_eq!(
        transition(ExecutorState::Idle, Command::GenerateRandomId),
        ExecutorState::GenerateRandomId
    );
    assert_eq!(transition(ExecutorState::Idle, Command::Transmit), ExecutorState::Transmit);
    assert_eq!(transition(ExecutorState::Idle, Command::Receive), ExecutorState::Receive);
    assert_eq!(transition(ExecutorState::Idle, Command::MFAuthent), ExecutorState::MFAuthent);
    for state in [
        ExecutorState::Idle,
        ExecutorState::Mem,
        ExecutorState::GenerateRandomId,
        ExecutorState::CalcCRC,
        ExecutorState::Transmit,
        ExecutorState::Receive,
        ExecutorState::Transceive,
        ExecutorState::MFAuthent,
        ExecutorState::SoftReset,
    ] {
        assert_eq!(transition(state, Command::NoCmdChange), state);
    }
}

#[test]
fn completion_flags() {
    assert_eq!(completion_irq(Command::Transceive), Some(0x20));
    assert_eq!(completion_irq(Command::Receive), Some(0x20));
    assert_eq!(completion_irq(Command::Transmit), Some(0x40));
    assert_eq!(completion_irq(Command::CalcCRC), Some(0x10));
    assert_eq!(completion_irq(Command::Mem), Some(0x10));
    assert_eq!(completion_irq(Command::GenerateRandomId), Some(0x10));
    assert_eq!(completion_irq(Command::MFAuthent), Some(0x10));
    assert_eq!(completion_irq(Command::Idle), None);
    assert_eq!(completion_irq(Command::NoCmdChange), None);
    assert_eq!(completion_irq(Command::SoftReset), None);
}

#[test]
fn error_register_verdicts() {
    assert_eq!(classify(0x00), CompletionStatus::Completed);
    assert_eq!(classify(0x08), CompletionStatus::ChipError(0x08));
    assert_eq!(classify(0x02), CompletionStatus::ChipError(0x02));
    assert_eq!(classify(0x04), CompletionStatus::ChipError(0x04));
    assert_eq!(classify(0x10), CompletionStatus::ChipError(0x10));
    assert_eq!(classify(0x40), CompletionStatus::ChipError(0x40));
    assert_eq!(classify(0x0C), CompletionStatus::ChipError(0x0C));
    assert_eq!(classify(0x81), CompletionStatus::Completed);
    assert_eq!(classify(0xFF), CompletionStatus::ChipError(0x5E));
}

#[test]
fn transceive_without_completion_times_out_exactly_at_timeout() {
    for timeout in [0u64, 1, 2, 5, 17, 100] {
        let mut access = chip();
        let mut executor = executor();
        assert_eq!(
            executor.execute(&mut access, Command::Transceive, timeout),
            Ok(CompletionStatus::Timeout)
        );
        assert_eq!(executor.clock().ticks(), timeout);
        let polls = access
            .bus()
            .transfers()
            .iter()
            .filter(|e| matches!(e, BusEvent::Read { address: 0x04, .. }))
            .count() as u64;
        assert_eq!(polls, timeout + 1);
        assert_eq!(executor.current(), ExecutorState::Transceive);
    }
}

#[test]
fn every_polled_command_times_out_on_a_silent_chip() {
    for command in [
        Command::Mem,
        Command::GenerateRandomId,
        Command::CalcCRC,
        Command::Transmit,
        Command::Receive,
        Command::Transceive,
        Command::MFAuthent,
    ] {
        let mut access = chip();
        let mut executor = executor();
        assert_eq!(executor.execute(&mut access, command, 4), Ok(CompletionStatus::Timeout));
        assert_eq!(executor.clock().ticks(), 4);
        assert_eq!(executor.current(), transition(ExecutorState::Idle, command));
    }
}

#[test]
fn transceive_traffic_on_a_silent_chip() {
    let mut access = chip();
    let mut executor = executor();
    assert_eq!(access.write(Register::BitFramingReg, 0x07), Ok(()));
    assert_eq!(
        executor.execute(&mut access, Command::Transceive, 1),
        Ok(CompletionStatus::Timeout)
    );
    assert_eq!(
        &access.bus().transfers()[1..],
        &[
            BusEvent::Write { address: 0x01, value: 0x0C, reply: Ok(()) },
            BusEvent::Read { address: 0x0D, reply: Ok(0x07) },
            BusEvent::Write { address: 0x0D, value: 0x87, reply: Ok(()) },
            BusEvent::Read { address: 0x04, reply: Ok(0x00) },
            BusEvent::Read { address: 0x04, reply: Ok(0x00) },
        ]
    );
}

#[test]
fn command_completes_when_its_flag_shows() {
    let mut access = chip();
    let mut executor = executor();
    assert_eq!(access.write(Register::ComIrqReg, 0x80 | 0x10), Ok(()));
    assert_eq!(
        executor.execute(&mut access, Command::CalcCRC, 10),
        Ok(CompletionStatus::Completed)
    );
    assert_eq!(executor.clock().ticks(), 0);
    assert_eq!(executor.current(), ExecutorState::CalcCRC);
    assert_eq!(
        &access.bus().transfers()[1..],
        &[
            BusEvent::Write { address: 0x01, value: 0x03, reply: Ok(()) },
            BusEvent::Read { address: 0x04, reply: Ok(0x10) },
            BusEvent::Read { address: 0x06, reply: Ok(0x00) },
        ]
    );
}

#[test]
fn command_waits_for_its_own_flag_only() {
    let mut access = chip();
    let mut executor = executor();
    assert_eq!(access.write(Register::ComIrqReg, 0x80 | 0x10), Ok(()));
    assert_eq!(
        executor.execute(&mut access, Command::Transmit, 2),
        Ok(CompletionStatus::Timeout)
    );
    assert_eq!(executor.clock().ticks(), 2);
}

#[test]
fn completed_command_reports_chip_error() {
    let mut access = chip();
    let mut executor = executor();
    assert_eq!(access.write(Register::ComIrqReg, 0x80 | 0x20), Ok(()));
    assert_eq!(access.write(Register::ErrorReg, 0x0B), Ok(()));
    assert_eq!(
        executor.execute(&mut access, Command::Receive, 10),
        Ok(CompletionStatus::ChipError(0x0A))
    );
}

#[test]
fn commands_without_a_flag_complete_at_once() {
    let mut access = chip();
    let mut executor = executor();
    assert_eq!(executor.execute(&mut access, Command::Idle, 10), Ok(CompletionStatus::Completed));
    assert_eq!(executor.current(), ExecutorState::Idle);
    assert_eq!(
        executor.execute(&mut access, Command::Transceive, 0),
        Ok(CompletionStatus::Timeout)
    );
    assert_eq!(
        executor.execute(&mut access, Command::NoCmdChange, 10),
        Ok(CompletionStatus::Completed)
    );
    assert_eq!(executor.current(), ExecutorState::Transceive);
    assert_eq!(executor.clock().ticks(), 0);
}

#[test]
fn transceive_right_after_soft_reset_is_rejected() {
    let mut access = chip();
    let mut executor = executor();
    assert_eq!(
        executor.execute(&mut access, Command::SoftReset, 10),
        Ok(CompletionStatus::Completed)
    );
    assert_eq!(executor.current(), ExecutorState::SoftReset);
    let before = access.bus().transfers().len();
    assert_eq!(
        executor.execute(&mut access, Command::Transceive, 10),
        Err(Error::ResetPending)
    );
    assert_eq!(access.bus().transfers().len(), before);
    assert_eq!(executor.current(), ExecutorState::SoftReset);
    assert_eq!(executor.clock().ticks(), 0);
    assert_eq!(
        transceive(&mut access, &mut executor, &[0x26], 7, 10),
        Err(Error::ResetPending)
    );
    assert_eq!(access.bus().transfers().len(), before);
    for command in [Command::Idle, Command::NoCmdChange, Command::SoftReset] {
        assert_eq!(executor.execute(&mut access, command, 1), Err(Error::ResetPending));
    }
    assert_eq!(access.bus().transfers().len(), before);
}

#[test]
fn commands_are_accepted_once_the_chip_is_up() {
    let mut access = chip();
    let mut executor = executor();
    assert_eq!(executor.poll_power_up(&mut access), Ok(true));
    assert_eq!(access.bus().transfers().len(), 0);
    assert_eq!(access.write(Register::TxControlReg, 0x83), Ok(()));
    assert_eq!(
        executor.execute(&mut access, Command::SoftReset, 10),
        Ok(CompletionStatus::Completed)
    );
    assert_eq!(access.bus().register(Register::TxControlReg), 0x00);
    assert_eq!(executor.poll_power_up(&mut access), Ok(false));
    assert_eq!(executor.current(), ExecutorState::SoftReset);
    assert_eq!(
        executor.execute(&mut access, Command::Transceive, 2),
        Err(Error::ResetPending)
    );
    assert_eq!(executor.poll_power_up(&mut access), Ok(true));
    assert_eq!(executor.current(), ExecutorState::Idle);
    assert_eq!(
        executor.execute(&mut access, Command::Transceive, 2),
        Ok(CompletionStatus::Timeout)
    );
    assert_eq!(executor.current(), ExecutorState::Transceive);
}

#[test]
fn payload_too_large_is_rejected_before_any_traffic() {
    let mut access = chip();
    let mut executor = executor();
    let payload = [0u8; 65];
    assert_eq!(
        transceive(&mut access, &mut executor, &payload, 0, 5),
        Err(Error::PayloadTooLarge)
    );
    assert_eq!(access.bus().transfers().len(), 0);
    assert_eq!(executor.clock().ticks(), 0);
    assert_eq!(executor.current(), ExecutorState::Idle);
    assert!(matches!(TransceiveSession::new(&payload, 0, 5), Err(Error::PayloadTooLarge)));
    assert!(TransceiveSession::new(&payload[..64], 0, 5).is_ok());
    assert!(TransceiveSession::new(&[], 0, 5).is_ok());
}

#[test]
fn exchange_with_an_empty_field_reports_no_response() {
    let mut access = chip();
    let mut executor = executor();
    assert_eq!(access.write(Register::ComIrqReg, 0x80 | 0x7F), Ok(()));
    assert_eq!(channel::push(&mut access, &[1, 2, 3]), Ok(()));
    assert_eq!(access.write(Register::BitFramingReg, 0x70), Ok(()));
    let before = access.bus().transfers().len();
    let outcome = transceive(&mut access, &mut executor, &[0x26], 7, 6).unwrap();
    assert_eq!(
        outcome,
        TransceiveOutcome {
            status: ExchangeStatus::NoResponse,
            data: vec![],
            last_bits: 0,
            collision: None,
            crc_valid: false,
        }
    );
    assert_eq!(outcome, TransceiveOutcome::absent());
    assert_eq!(executor.clock().ticks(), 6);
    assert_eq!(executor.current(), ExecutorState::Transceive);
    assert_eq!(access.bus().fifo(), vec![0x26]);
    assert_eq!(access.bus().register(Register::BitFramingReg), 0xF7);
    assert_eq!(access.bus().register(Register::ComIrqReg), 0x00);
    assert_eq!(
        &access.bus().transfers()[before..before + 9],
        &[
            BusEvent::Write { address: 0x04, value: 0x7F, reply: Ok(()) },
            BusEvent::Write { address: 0x0A, value: 0x80, reply: Ok(()) },
            BusEvent::Read { address: 0x0A, reply: Ok(0) },
            BusEvent::Write { address: 0x09, value: 0x26, reply: Ok(()) },
            BusEvent::Read { address: 0x0D, reply: Ok(0x70) },
            BusEvent::Write { address: 0x0D, value: 0x77, reply: Ok(()) },
            BusEvent::Write { address: 0x01, value: 0x0C, reply: Ok(()) },
            BusEvent::Read { address: 0x0D, reply: Ok(0x77) },
            BusEvent::Write { address: 0x0D, value: 0xF7, reply: Ok(()) },
        ]
    );
    assert_eq!(access.bus().transfers().len(), before + 9 + 7);
}

#[test]
fn outcome_decoding() {
    let plain = TransceiveOutcome::decode(vec![1, 2], 0x00, 0x00, None);
    assert_eq!(plain.status, ExchangeStatus::Received);
    assert_eq!(plain.data, vec![1, 2]);
    assert_eq!(plain.last_bits, 0);
    assert_eq!(plain.collision, None);
    assert!(plain.crc_valid);
    let partial = TransceiveOutcome::decode(vec![0x44], 0xF5, 0x04, None);
    assert_eq!(partial.last_bits, 5);
    assert!(!partial.crc_valid);
    let collided = TransceiveOutcome::decode(vec![0xFF], 0x03, 0x08, Some(0x91));
    assert_eq!(collided.collision, Some(0x11));
    assert_eq!(collided.last_bits, 3);
    assert!(collided.crc_valid);
    let unknown = TransceiveOutcome::decode(vec![], 0x00, 0x08, Some(0x20));
    assert_eq!(unknown.collision, None);
    let first_bit = TransceiveOutcome::decode(vec![], 0x00, 0x08, Some(0x00));
    assert_eq!(first_bit.collision, Some(0));
}

#[test]
fn transport_and_clock_are_given_back() {
    let mut access = chip();
    assert_eq!(access.write(Register::ModeReg, 0x3D), Ok(()));
    let bus = access.release();
    assert_eq!(bus.register(Register::ModeReg), 0x3D);
    let mut executor = executor();
    let mut again = RegisterAccess::new(bus);
    assert_eq!(executor.execute(&mut again, Command::Mem, 3), Ok(CompletionStatus::Timeout));
    assert_eq!(executor.release().ticks(), 3);
}

#[test]
fn cancel_idles_the_chip_and_flushes_the_fifo() {
    let mut access = chip();
    let mut executor = executor();
    assert_eq!(channel::push(&mut access, &[1, 2, 3]), Ok(()));
    assert_eq!(
        executor.execute(&mut access, Command::Transceive, 2),
        Ok(CompletionStatus::Timeout)
    );
    let before = access.bus().transfers().len();
    assert_eq!(executor.cancel(&mut access), Ok(()));
    assert_eq!(executor.current(), ExecutorState::Idle);
    assert_eq!(access.bus().fifo(), Vec::<u8>::new());
    assert_eq!(access.bus().register(Register::CommandReg), 0x00);
    assert_eq!(
        &access.bus().transfers()[before..],
        &[
            BusEvent::Write { address: 0x01, value: 0x00, reply: Ok(()) },
            BusEvent::Write { address: 0x0A, value: 0x80, reply: Ok(()) },
        ]
    );
    assert_eq!(executor.clock().ticks(), 2);
}

#[test]
fn cancel_is_refused_while_a_reset_is_pending() {
    let mut access = chip();
    let mut executor = executor();
    assert_eq!(
        executor.execute(&mut access, Command::SoftReset, 0),
        Ok(CompletionStatus::Completed)
    );
    let before = access.bus().transfers().len();
    assert_eq!(executor.cancel(&mut access), Err(Error::ResetPending));
    assert_eq!(access.bus().transfers().len(), before);
    assert_eq!(executor.current(), ExecutorState::SoftReset);
}

#[test]
fn await_flag_polls_once_per_tick() {
    let mut access = chip();
    let mut executor = executor();
    assert_eq!(executor.await_flag(&mut access, 0x20, 3), Ok(CompletionStatus::Timeout));
    assert_eq!(executor.clock().ticks(), 3);
    assert_eq!(access.bus().transfers().len(), 4);
    assert_eq!(access.write(Register::ComIrqReg, 0xA0), Ok(()));
    assert_eq!(executor.await_flag(&mut access, 0x20, 3), Ok(CompletionStatus::Completed));
    assert_eq!(executor.clock().ticks(), 3);
    assert_eq!(executor.current(), ExecutorState::Idle);
}

#[test]
fn simulated_chip_is_the_replay_of_its_transfers() {
    let mut access = chip();
    let mut executor = executor();
    assert_eq!(access.write(Register::RFCfgReg, 0x8F), Ok(()));
    assert_eq!(access.set_rx_gain(RxGain::DB43), Ok(()));
    assert_eq!(channel::push(&mut access, &[5, 6, 7, 8]), Ok(()));
    assert_eq!(channel::pull(&mut access, 1), Ok(vec![5]));
    assert!(transceive(&mut access, &mut executor, &[0x26, 0x27], 7, 2).is_ok());
    let first = access.release();
    let mut second = SimulatedChip::default();
    for event in first.transfers().iter() {
        match *event {
            BusEvent::Read { address, reply } => assert_eq!(second.read(address), reply),
            BusEvent::Write { address, value, reply } => {
                assert_eq!(second.write(address, value), reply)
            }
        }
    }
    assert_eq!(second.fifo(), first.fifo());
    assert_eq!(second.transfers(), first.transfers());
    for address in 0..64u8 {
        if let Some(register) = Register::from_address(address) {
            assert_eq!(second.register(register), first.register(register));
        }
    }
}

#[test]
fn soft_reset_clears_the_simulated_chip() {
    let mut bus = SimulatedChip::new();
    assert_eq!(bus.write(0x26, 0x48), Ok(()));
    assert_eq!(bus.write(0x09, 0x11), Ok(()));
    assert_eq!(bus.write(0x01, 0x0F), Ok(()));
    assert_eq!(bus.register(Register::RFCfgReg), 0x00);
    assert_eq!(bus.fifo(), Vec::<u8>::new());
    assert_eq!(bus.read(0x01), Ok(0x10));
    assert_eq!(bus.read(0x01), Ok(0x00));
    assert_eq!(bus.write(0x01, 0x2C), Ok(()));
    assert_eq!(bus.read(0x01), Ok(0x2C));
    assert_eq!(SimulatedClock::default().ticks(), 0);
}
