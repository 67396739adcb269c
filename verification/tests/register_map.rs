use mfrc522::register::{Command, Register, RxGain};

const REGISTERS: [(Register, u8); 50] = [
    (Register::CommandReg, 0x01),
    (Register::ComlEnReg, 0x02),
    (Register::DivlEnReg, 0x03),
    (Register::ComIrqReg, 0x04),
    (Register::DivIrqReg, 0x05),
    (Register::ErrorReg, 0x06),
    (Register::Status1Reg, 0x07),
    (Register::Status2Reg, 0x08),
    (Register::FIFODataReg, 0x09),
    (Register::FIFOLevelReg, 0x0A),
    (Register::WaterLevelReg, 0x0B),
    (Register::ControlReg, 0x0C),
    (Register::BitFramingReg, 0x0D),
    (Register::CollReg, 0x0E),
    (Register::ModeReg, 0x11),
    (Register::TxModeReg, 0x12),
    (Register::RxModeReg, 0x13),
    (Register::TxControlReg, 0x14),
    (Register::TxASKReg, 0x15),
    (Register::TxSelReg, 0x16),
    (Register::RxSelReg, 0x17),
    (Register::RxThresholdReg, 0x18),
    (Register::DemodReg, 0x19),
    (Register::MfTxReg, 0x1C),
    (Register::MfRxReg, 0x1D),
    (Register::SerialSpeedReg, 0x1F),
    (Register::CRCResultRegHigh, 0x21),
    (Register::CRCResultRegLow, 0x22),
    (Register::ModWidthReg, 0x24),
    (Register::RFCfgReg, 0x26),
    (Register::GsNReg, 0x27),
    (Register::CWGsPReg, 0x28),
    (Register::ModGsPReg, 0x29),
    (Register::TModeReg, 0x2A),
    (Register::TPrescalerReg, 0x2B),
    (Register::TReloadRegHigh, 0x2C),
    (Register::TReloadRegLow, 0x2D),
    (Register::TCounterValRegHigh, 0x2E),
    (Register::TCounterValRegLow, 0x2F),
    (Register::TestSel1Reg, 0x31),
    (Register::TestSel2Reg, 0x32),
    (Register::TestPinEnReg, 0x33),
    (Register::TestPinValueReg, 0x34),
    (Register::TestBusReg, 0x35),
    (Register::AutoTestReg, 0x36),
    (Register::VersionReg, 0x37),
    (Register::AnalogTestReg, 0x38),
    (Register::TestDAC1Reg, 0x39),
    (Register::TestDAC2Reg, 0x3A),
    (Register::TestADCReg, 0x3B),
];

const COMMANDS: [(Command, u8); 10] = [
    (Command::Idle, 0b0000),
    (Command::Mem, 0b0001),
    (Command::GenerateRandomId, 0b0010),
    (Command::CalcCRC, 0b0011),
    (Command::Transmit, 0b0100),
    (Command::NoCmdChange, 0b0111),
    (Command::Receive, 0b1000),
    (Command::Transceive, 0b1100),
    (Command::MFAuthent, 0b1110),
    (Command::SoftReset, 0b1111),
];

const GAINS: [(RxGain, u8); 6] = [
    (RxGain::DB18, 0x00),
    (RxGain::DB23, 0x10),
    (RxGain::DB33, 0x40),
    (RxGain::DB38, 0x50),
    (RxGain::DB43, 0x60),
    (RxGain::DB48, 0x70),
];

#[test]
fn register_addresses_are_those_of_the_chip() {
    for (register, address) in REGISTERS {
        assert_eq!(u8::from(register), address);
        assert_eq!(register.address(), address);
    }
}

#[test]
fn register_addresses_round_trip() {
    for (register, address) in REGISTERS {
        assert_eq!(Register::from_address(address), Some(register));
        assert_eq!(Register::from_address(u8::from(register)), Some(register));
    }
}

#[test]
fn register_addresses_are_unique_and_six_bit() {
    for (i, (_, a)) in REGISTERS.iter().enumerate() {
        assert!(*a >= 0x01 && *a <= 0x3B);
        for (_, b) in REGISTERS.iter().skip(i + 1) {
            assert_ne!(a, b);
        }
    }
}

#[test]
fn bytes_without_a_register_decode_to_none() {
    let mut known = 0;
    for address in 0..=255u8 {
        match Register::from_address(address) {
            Some(register) => {
                known += 1;
                assert_eq!(u8::from(register), address);
            }
            None => assert!(REGISTERS.iter().all(|(_, a)| *a != address)),
        }
    }
    assert_eq!(known, 50);
    assert_eq!(Register::from_address(0x00), None);
    assert_eq!(Register::from_address(0x0F), None);
    assert_eq!(Register::from_address(0x10), None);
    assert_eq!(Register::from_address(0x3C), None);
}

#[test]
fn command_opcodes_are_those_of_the_chip() {
    for (command, opcode) in COMMANDS {
        assert_eq!(u8::from(command), opcode);
        assert_eq!(command.opcode(), opcode);
        assert!(opcode <= 0x0F);
    }
}

#[test]
fn command_opcodes_round_trip() {
    for (command, opcode) in COMMANDS {
        assert_eq!(Command::from_opcode(opcode), Some(command));
    }
    let mut known = 0;
    for opcode in 0..=255u8 {
        if let Some(command) = Command::from_opcode(opcode) {
            known += 1;
            assert_eq!(u8::from(command), opcode);
        }
    }
    assert_eq!(known, 10);
    assert_eq!(Command::from_opcode(0b0101), None);
    assert_eq!(Command::from_opcode(0x1C), None);
}

#[test]
fn gain_patterns_are_those_of_the_chip() {
    for (gain, pattern) in GAINS {
        assert_eq!(u8::from(gain), pattern);
        assert_eq!(gain.pattern(), pattern);
        assert_eq!(pattern & !0x70, 0);
    }
}

#[test]
fn gain_patterns_round_trip() {
    for (gain, pattern) in GAINS {
        assert_eq!(RxGain::from_pattern(pattern), gain);
        assert_eq!(RxGain::from_pattern(pattern | 0x8F), gain);
    }
}

#[test]
fn gain_aliases_decode_to_the_lowest_gains() {
    assert_eq!(RxGain::from_pattern(0x20), RxGain::DB18);
    assert_eq!(RxGain::from_pattern(0x30), RxGain::DB23);
    assert_eq!(RxGain::from_pattern(0xAF), RxGain::DB18);
}
