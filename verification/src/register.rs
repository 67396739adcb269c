//! The register map of the MFRC522: register addresses, command opcodes and
//! receiver gain presets, with their fixed byte values.
//!
//! The numbers are those of the silicon. Every conversion to a byte is total,
//! and no two names of one enumeration share a byte.
use vstd::prelude::*;
use vstd::std_specs::convert::FromSpecImpl;

verus! {

/// *CommandReg*: the bits that hold the active command.
pub const COMMAND_MASK: u8 = 0x0F;

/// *CommandReg*: set while the chip is powered down or still starting up.
pub const POWER_DOWN: u8 = 0x10;

/// *ComIrqReg*: in a write, tells the chip to set the marked bits instead of
/// clearing them.
pub const IRQ_SET: u8 = 0x80;

/// *ComIrqReg*: all seven interrupt request bits.
pub const IRQ_ALL: u8 = 0x7F;

/// *ComIrqReg*: the last bit of the transmitted data was sent out.
pub const TX_IRQ: u8 = 0x40;

/// *ComIrqReg*: the receiver detected the end of a valid data stream.
pub const RX_IRQ: u8 = 0x20;

/// *ComIrqReg*: a command terminated by itself.
pub const IDLE_IRQ: u8 = 0x10;

/// *ErrorReg*: the temperature sensor switched the antenna drivers off.
pub const TEMP_ERR: u8 = 0x40;

/// *ErrorReg*: the FIFO was written to although it was full.
pub const BUFFER_OVFL: u8 = 0x10;

/// *ErrorReg*: a bit-collision was detected.
pub const COLL_ERR: u8 = 0x08;

/// *ErrorReg*: the CRC calculation of the received data failed.
pub const CRC_ERR: u8 = 0x04;

/// *ErrorReg*: the parity check of the received data failed.
pub const PARITY_ERR: u8 = 0x02;

/// *ErrorReg*: the error bits that the driver reports.
pub const ERROR_MASK: u8 = 0x5E;

/// *ErrorReg*: the error bits after which a response cannot be used: parity,
/// buffer overflow and temperature.
pub const FATAL_ERROR_MASK: u8 = 0x52;

/// *FIFOLevelReg*: in a write, clears the FIFO.
pub const FLUSH_BUFFER: u8 = 0x80;

/// *FIFOLevelReg*: the bits that hold the number of bytes in the FIFO.
pub const FIFO_LEVEL_MASK: u8 = 0x7F;

/// *ControlReg*: the number of valid bits in the last received byte; zero
/// means that the whole byte is valid.
pub const RX_LAST_BITS_MASK: u8 = 0x07;

/// *BitFramingReg*: starts the transmission of a transceive.
pub const START_SEND: u8 = 0x80;

/// *BitFramingReg*: the number of bits of the last byte that are sent; zero
/// means all eight.
pub const TX_LAST_BITS_MASK: u8 = 0x07;

/// *CollReg*: set when no collision was detected or its position is out of
/// range.
pub const COLL_POS_NOT_VALID: u8 = 0x20;

/// *CollReg*: the bits that hold the position of the first collision.
pub const COLL_POS_MASK: u8 = 0x1F;

/// *RFCfgReg*: the bits that hold the receiver gain.
pub const RX_GAIN_MASK: u8 = 0x70;

/// List of all registers for the MFRC522.
#[derive(Debug, Clone, Copy, PartialEq, Eq, Structural)]
pub enum Register {
    /// Starts and stops command execution.
    CommandReg,
    /// Control bits to enable and disable the passing of interrupt requests.
    ComlEnReg,
    /// Control bits to enable and disable the passing of interrupt requests.
    DivlEnReg,
    /// Interrupt request bits.
    ComIrqReg,
    /// Interrupt request bits.
    DivIrqReg,
    /// Error bit register showing the error status of the last command executed.
    ErrorReg,
    /// Contains status bits of the CRC, interrupt and FIFO buffer.
    Status1Reg,
    /// Contains status bits of the receiver, transmitter and data mode detector.
    Status2Reg,
    /// Input and output of 64 byte FIFO buffer.
    FIFODataReg,
    /// Indicates the number of bytes stored in the FIFO.
    FIFOLevelReg,
    /// Defines the level for FIFO under- and overflow warning.
    WaterLevelReg,
    /// Miscellaneous control bits.
    ControlReg,
    /// Adjustments for bit-oriented frames.
    BitFramingReg,
    /// Defines the first bit-collision detected on the RF interface.
    CollReg,
    /// Defines general mode settings for transmitting and receiving.
    ModeReg,
    /// Defines the data rate during transmission.
    TxModeReg,
    /// Defines the data rate during reception.
    RxModeReg,
    /// Controls the logical behavior of the antenna driver pins TX1 and TX2.
    TxControlReg,
    /// Controls transmit modulation settings.
    TxASKReg,
    /// Selects the internal sources for the analog module.
    TxSelReg,
    /// Selects internal receiver settings.
    RxSelReg,
    /// Selects thresholds for the bit decoder.
    RxThresholdReg,
    /// Defines demodulator settings.
    DemodReg,
    /// Controls some MIFARE communication transmit parameters.
    MfTxReg,
    /// Controls some MIFARE communication receive parameters.
    MfRxReg,
    /// Selects the speed of the serial UART interface.
    SerialSpeedReg,
    /// CRC calculation highest 8 bits.
    CRCResultRegHigh,
    /// CRC calculation lowest 8 bits.
    CRCResultRegLow,
    /// Sets the modulation width.
    ModWidthReg,
    /// Configures the receiver gain.
    RFCfgReg,
    /// Defines the conductance of the antenna driver pins TX1 and TX2 for the n-driver
    /// when the driver is switched on.
    GsNReg,
    /// Defines the conductance of the p-driver output during periods of no modulation.
    CWGsPReg,
    /// Defines the conductance of the p-driver output during modulation.
    ModGsPReg,
    /// Timer settings + prescaler highest 4 bits.
    TModeReg,
    /// Timer prescaler lowest 8 bits.
    TPrescalerReg,
    /// Timer reload value highest 8 bits.
    TReloadRegHigh,
    /// Timer reload value lowest 8 bits.
    TReloadRegLow,
    /// Timer value highest 8 bits.
    TCounterValRegHigh,
    /// Timer value lower 8 bits.
    TCounterValRegLow,
    /// General test signal configuration.
    TestSel1Reg,
    /// General test signal configuration and PRBS control.
    TestSel2Reg,
    /// Enables the test bus pin output driver.
    TestPinEnReg,
    /// Defines the HIGH and LOW values for the test port D1 to D7 when it is used as I/O.
    TestPinValueReg,
    /// Shows the status of the internal test bus.
    TestBusReg,
    /// Controls the digital self-test.
    AutoTestReg,
    /// Shows the MFRC522 software version.
    VersionReg,
    /// Determines the analog output test signal at, and status of, pins AUX1 and AUX2.
    AnalogTestReg,
    /// Defines the test value for TestDAC1.
    TestDAC1Reg,
    /// Defines the test value for TestDAC2.
    TestDAC2Reg,
    /// Shows the values of ADC I and Q channels.
    TestADCReg,
}

impl Register {
    /// The six-bit address of this register on the chip.
    pub open spec fn addr(self) -> u8 {
        match self {
            Register::CommandReg => 0x01,
            Register::ComlEnReg => 0x02,
            Register::DivlEnReg => 0x03,
            Register::ComIrqReg => 0x04,
            Register::DivIrqReg => 0x05,
            Register::ErrorReg => 0x06,
            Register::Status1Reg => 0x07,
            Register::Status2Reg => 0x08,
            Register::FIFODataReg => 0x09,
            Register::FIFOLevelReg => 0x0A,
            Register::WaterLevelReg => 0x0B,
            Register::ControlReg => 0x0C,
            Register::BitFramingReg => 0x0D,
            Register::CollReg => 0x0E,
            Register::ModeReg => 0x11,
            Register::TxModeReg => 0x12,
            Register::RxModeReg => 0x13,
            Register::TxControlReg => 0x14,
            Register::TxASKReg => 0x15,
            Register::TxSelReg => 0x16,
            Register::RxSelReg => 0x17,
            Register::RxThresholdReg => 0x18,
            Register::DemodReg => 0x19,
            Register::MfTxReg => 0x1C,
            Register::MfRxReg => 0x1D,
            Register::SerialSpeedReg => 0x1F,
            Register::CRCResultRegHigh => 0x21,
            Register::CRCResultRegLow => 0x22,
            Register::ModWidthReg => 0x24,
            Register::RFCfgReg => 0x26,
            Register::GsNReg => 0x27,
            Register::CWGsPReg => 0x28,
            Register::ModGsPReg => 0x29,
            Register::TModeReg => 0x2A,
            Register::TPrescalerReg => 0x2B,
            Register::TReloadRegHigh => 0x2C,
            Register::TReloadRegLow => 0x2D,
            Register::TCounterValRegHigh => 0x2E,
            Register::TCounterValRegLow => 0x2F,
            Register::TestSel1Reg => 0x31,
            Register::TestSel2Reg => 0x32,
            Register::TestPinEnReg => 0x33,
            Register::TestPinValueReg => 0x34,
            Register::TestBusReg => 0x35,
            Register::AutoTestReg => 0x36,
            Register::VersionReg => 0x37,
            Register::AnalogTestReg => 0x38,
            Register::TestDAC1Reg => 0x39,
            Register::TestDAC2Reg => 0x3A,
            Register::TestADCReg => 0x3B,
        }
    }

    /// The address of this register, as it goes over the bus.
    pub fn address(self) -> (a: u8)
        ensures
            a == self.addr(),
            0x01 <= a <= 0x3B,
    {
        match self {
            Register::CommandReg => 0x01,
            Register::ComlEnReg => 0x02,
            Register::DivlEnReg => 0x03,
            Register::ComIrqReg => 0x04,
            Register::DivIrqReg => 0x05,
            Register::ErrorReg => 0x06,
            Register::Status1Reg => 0x07,
            Register::Status2Reg => 0x08,
            Register::FIFODataReg => 0x09,
            Register::FIFOLevelReg => 0x0A,
            Register::WaterLevelReg => 0x0B,
            Register::ControlReg => 0x0C,
            Register::BitFramingReg => 0x0D,
            Register::CollReg => 0x0E,
            Register::ModeReg => 0x11,
            Register::TxModeReg => 0x12,
            Register::RxModeReg => 0x13,
            Register::TxControlReg => 0x14,
            Register::TxASKReg => 0x15,
            Register::TxSelReg => 0x16,
            Register::RxSelReg => 0x17,
            Register::RxThresholdReg => 0x18,
            Register::DemodReg => 0x19,
            Register::MfTxReg => 0x1C,
            Register::MfRxReg => 0x1D,
            Register::SerialSpeedReg => 0x1F,
            Register::CRCResultRegHigh => 0x21,
            Register::CRCResultRegLow => 0x22,
            Register::ModWidthReg => 0x24,
            Register::RFCfgReg => 0x26,
            Register::GsNReg => 0x27,
            Register::CWGsPReg => 0x28,
            Register::ModGsPReg => 0x29,
            Register::TModeReg => 0x2A,
            Register::TPrescalerReg => 0x2B,
            Register::TReloadRegHigh => 0x2C,
            Register::TReloadRegLow => 0x2D,
            Register::TCounterValRegHigh => 0x2E,
            Register::TCounterValRegLow => 0x2F,
            Register::TestSel1Reg => 0x31,
            Register::TestSel2Reg => 0x32,
            Register::TestPinEnReg => 0x33,
            Register::TestPinValueReg => 0x34,
            Register::TestBusReg => 0x35,
            Register::AutoTestReg => 0x36,
            Register::VersionReg => 0x37,
            Register::AnalogTestReg => 0x38,
            Register::TestDAC1Reg => 0x39,
            Register::TestDAC2Reg => 0x3A,
            Register::TestADCReg => 0x3B,
        }
    }

    /// The register whose address is `address`, if there is one: the inverse of
    /// [`Register::addr`].
    pub open spec fn at(address: u8) -> Option<Register> {
        if exists|register: Register| register.addr() == address {
            Some(choose|register: Register| register.addr() == address)
        } else {
            None
        }
    }

    /// The register that lives at `address`, if there is one.
    pub fn from_address(address: u8) -> (r: Option<Register>)
        ensures
            r == Register::at(address),
    {
        let r = match address {
            0x01 => Some(Register::CommandReg),
            0x02 => Some(Register::ComlEnReg),
            0x03 => Some(Register::DivlEnReg),
            0x04 => Some(Register::ComIrqReg),
            0x05 => Some(Register::DivIrqReg),
            0x06 => Some(Register::ErrorReg),
            0x07 => Some(Register::Status1Reg),
            0x08 => Some(Register::Status2Reg),
            0x09 => Some(Register::FIFODataReg),
            0x0A => Some(Register::FIFOLevelReg),
            0x0B => Some(Register::WaterLevelReg),
            0x0C => Some(Register::ControlReg),
            0x0D => Some(Register::BitFramingReg),
            0x0E => Some(Register::CollReg),
            0x11 => Some(Register::ModeReg),
            0x12 => Some(Register::TxModeReg),
            0x13 => Some(Register::RxModeReg),
            0x14 => Some(Register::TxControlReg),
            0x15 => Some(Register::TxASKReg),
            0x16 => Some(Register::TxSelReg),
            0x17 => Some(Register::RxSelReg),
            0x18 => Some(Register::RxThresholdReg),
            0x19 => Some(Register::DemodReg),
            0x1C => Some(Register::MfTxReg),
            0x1D => Some(Register::MfRxReg),
            0x1F => Some(Register::SerialSpeedReg),
            0x21 => Some(Register::CRCResultRegHigh),
            0x22 => Some(Register::CRCResultRegLow),
            0x24 => Some(Register::ModWidthReg),
            0x26 => Some(Register::RFCfgReg),
            0x27 => Some(Register::GsNReg),
            0x28 => Some(Register::CWGsPReg),
            0x29 => Some(Register::ModGsPReg),
            0x2A => Some(Register::TModeReg),
            0x2B => Some(Register::TPrescalerReg),
            0x2C => Some(Register::TReloadRegHigh),
            0x2D => Some(Register::TReloadRegLow),
            0x2E => Some(Register::TCounterValRegHigh),
            0x2F => Some(Register::TCounterValRegLow),
            0x31 => Some(Register::TestSel1Reg),
            0x32 => Some(Register::TestSel2Reg),
            0x33 => Some(Register::TestPinEnReg),
            0x34 => Some(Register::TestPinValueReg),
            0x35 => Some(Register::TestBusReg),
            0x36 => Some(Register::AutoTestReg),
            0x37 => Some(Register::VersionReg),
            0x38 => Some(Register::AnalogTestReg),
            0x39 => Some(Register::TestDAC1Reg),
            0x3A => Some(Register::TestDAC2Reg),
            0x3B => Some(Register::TestADCReg),
            _ => None,
        };
        proof {
            match r {
                Some(register) => {
                    lemma_register_addresses_unique(register, Register::at(address).unwrap());
                },
                None => {
                    assert forall|register: Register| register.addr() != address by {}
                },
            }
        }
        r
    }
}

impl From<Register> for u8 {
    fn from(variant: Register) -> (a: u8) {
        variant.address()
    }
}

impl FromSpecImpl<Register> for u8 {
    open spec fn obeys_from_spec() -> bool {
        true
    }

    open spec fn from_spec(variant: Register) -> u8 {
        variant.addr()
    }
}

/// The receiver's signal voltage gain factor.
///
/// The value is the gain as it lies in bits 4 to 6 of *RFCfgReg*.
#[derive(Debug, Clone, Copy, PartialEq, Eq, Structural)]
pub enum RxGain {
    /// 18 dB, minimum.
    DB18,
    /// 23 dB.
    DB23,
    /// 33 dB, average.
    DB33,
    /// 38 dB.
    DB38,
    /// 43 dB.
    DB43,
    /// 48 dB, maximum.
    DB48,
}

impl RxGain {
    /// The *RFCfgReg* bit pattern that selects this gain.
    pub open spec fn bits(self) -> u8 {
        match self {
            RxGain::DB18 => 0x00,
            RxGain::DB23 => 0x10,
            RxGain::DB33 => 0x40,
            RxGain::DB38 => 0x50,
            RxGain::DB43 => 0x60,
            RxGain::DB48 => 0x70,
        }
    }

    /// The bit pattern of this gain, which lies within the gain field.
    pub fn pattern(self) -> (b: u8)
        ensures
            b == self.bits(),
            b & !RX_GAIN_MASK == 0,
    {
        let b: u8 = match self {
            RxGain::DB18 => 0x00,
            RxGain::DB23 => 0x10,
            RxGain::DB33 => 0x40,
            RxGain::DB38 => 0x50,
            RxGain::DB43 => 0x60,
            RxGain::DB48 => 0x70,
        };
        assert(b & !0x70u8 == 0) by (bit_vector)
            requires
                b == 0x00 || b == 0x10 || b == 0x40 || b == 0x50 || b == 0x60 || b == 0x70,
        ;
        b
    }

    /// What the gain field of a register value selects.
    ///
    /// The chip knows two more patterns, `0x20` and `0x30`, as second names of
    /// the two lowest gains.
    pub open spec fn decode(value: u8) -> RxGain {
        let field = value & RX_GAIN_MASK;
        if field == 0x00 || field == 0x20 {
            RxGain::DB18
        } else if field == 0x10 || field == 0x30 {
            RxGain::DB23
        } else if field == 0x40 {
            RxGain::DB33
        } else if field == 0x50 {
            RxGain::DB38
        } else if field == 0x60 {
            RxGain::DB43
        } else {
            RxGain::DB48
        }
    }

    /// The gain that the gain field of `value` selects; the bits outside the
    /// field play no part.
    pub fn from_pattern(value: u8) -> (g: RxGain)
        ensures
            g == Self::decode(value),
    {
        let field: u8 = value & RX_GAIN_MASK;
        if field == 0x00 || field == 0x20 {
            RxGain::DB18
        } else if field == 0x10 || field == 0x30 {
            RxGain::DB23
        } else if field == 0x40 {
            RxGain::DB33
        } else if field == 0x50 {
            RxGain::DB38
        } else if field == 0x60 {
            RxGain::DB43
        } else {
            RxGain::DB48
        }
    }
}

impl From<RxGain> for u8 {
    fn from(variant: RxGain) -> (b: u8) {
        variant.pattern()
    }
}

impl FromSpecImpl<RxGain> for u8 {
    open spec fn obeys_from_spec() -> bool {
        true
    }

    open spec fn from_spec(variant: RxGain) -> u8 {
        variant.bits()
    }
}

/// List of different commands for the MFRC522
/// with their *code* as value.
#[derive(Debug, Clone, Copy, PartialEq, Eq, Structural)]
pub enum Command {
    /// No action, cancels current command.
    Idle,
    /// Store 25 bytes into the internal buffer.
    Mem,
    /// Generate a 10-byte random ID.
    GenerateRandomId,
    /// Activate the CRC coprocessor.
    CalcCRC,
    /// Transmit data from the FIFO buffer (to the antenna).
    Transmit,
    /// Modify other *CommandReg* bits without affecting the command.
    NoCmdChange,
    /// Activate the receiver circuit.
    Receive,
    /// Transmit data from the FIFO buffer and activate the receiver after transmission.
    Transceive,
    /// Perform MIFARE standard authentication as a reader.
    MFAuthent,
    /// Reset the MFRC522.
    SoftReset,
}

impl Command {
    /// The four-bit opcode of this command.
    pub open spec fn code(self) -> u8 {
        match self {
            Command::Idle => 0b0000,
            Command::Mem => 0b0001,
            Command::GenerateRandomId => 0b0010,
            Command::CalcCRC => 0b0011,
            Command::Transmit => 0b0100,
            Command::NoCmdChange => 0b0111,
            Command::Receive => 0b1000,
            Command::Transceive => 0b1100,
            Command::MFAuthent => 0b1110,
            Command::SoftReset => 0b1111,
        }
    }

    /// The opcode of this command, as it is written to *CommandReg*.
    pub fn opcode(self) -> (c: u8)
        ensures
            c == self.code(),
            c <= 0x0F,
    {
        match self {
            Command::Idle => 0b0000,
            Command::Mem => 0b0001,
            Command::GenerateRandomId => 0b0010,
            Command::CalcCRC => 0b0011,
            Command::Transmit => 0b0100,
            Command::NoCmdChange => 0b0111,
            Command::Receive => 0b1000,
            Command::Transceive => 0b1100,
            Command::MFAuthent => 0b1110,
            Command::SoftReset => 0b1111,
        }
    }

    /// The command whose opcode is `opcode`, if there is one: the inverse of
    /// [`Command::code`].
    pub open spec fn with_code(opcode: u8) -> Option<Command> {
        if exists|command: Command| command.code() == opcode {
            Some(choose|command: Command| command.code() == opcode)
        } else {
            None
        }
    }

    /// The command with opcode `opcode`, if there is one.
    pub fn from_opcode(opcode: u8) -> (c: Option<Command>)
        ensures
            c == Command::with_code(opcode),
    {
        let c = match opcode {
            0b0000 => Some(Command::Idle),
            0b0001 => Some(Command::Mem),
            0b0010 => Some(Command::GenerateRandomId),
            0b0011 => Some(Command::CalcCRC),
            0b0100 => Some(Command::Transmit),
            0b0111 => Some(Command::NoCmdChange),
            0b1000 => Some(Command::Receive),
            0b1100 => Some(Command::Transceive),
            0b1110 => Some(Command::MFAuthent),
            0b1111 => Some(Command::SoftReset),
            _ => None,
        };
        proof {
            match c {
                Some(command) => {
                    lemma_command_codes_unique(command, Command::with_code(opcode).unwrap());
                },
                None => {
                    assert forall|command: Command| command.code() != opcode by {}
                },
            }
        }
        c
    }
}

impl From<Command> for u8 {
    fn from(variant: Command) -> (c: u8) {
        variant.opcode()
    }
}

impl FromSpecImpl<Command> for u8 {
    open spec fn obeys_from_spec() -> bool {
        true
    }

    open spec fn from_spec(variant: Command) -> u8 {
        variant.code()
    }
}

/// No two registers share an address, and every address lies in the chip's
/// six-bit range.
pub proof fn lemma_register_addresses_unique(a: Register, b: Register)
    ensures
        a.addr() == b.addr() <==> a == b,
        0x01 <= a.addr() <= 0x3B,
{
}

/// A register's address leads back to that register and to no other.
pub proof fn lemma_register_round_trip(register: Register)
    ensures
        Register::at(register.addr()) == Some(register),
{
    lemma_register_addresses_unique(register, Register::at(register.addr()).unwrap());
}

/// No two commands share an opcode, and every opcode fits the low nibble.
pub proof fn lemma_command_codes_unique(a: Command, b: Command)
    ensures
        a.code() == b.code() <==> a == b,
        a.code() <= 0x0F,
{
}

/// A command's opcode leads back to that command and to no other.
pub proof fn lemma_command_round_trip(command: Command)
    ensures
        Command::with_code(command.code()) == Some(command),
{
    lemma_command_codes_unique(command, Command::with_code(command.code()).unwrap());
}

/// No two gains share a bit pattern, and a gain's own pattern decodes to it.
pub proof fn lemma_gain_round_trip(a: RxGain, b: RxGain)
    ensures
        a.bits() == b.bits() <==> a == b,
        RxGain::decode(a.bits()) == a,
{
    let x = a.bits();
    assert(x & 0x70u8 == x) by (bit_vector)
        requires
            x == 0x00 || x == 0x10 || x == 0x40 || x == 0x50 || x == 0x60 || x == 0x70,
    ;
}

} // verus!
