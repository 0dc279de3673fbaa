//! The controller's command catalogue and the parameter values of a few
//! commands.
use vstd::prelude::*;

verus! {

/// Opcodes of the controller's commands.
#[derive(Clone, Copy)]
pub enum Command {
    NOP,
    SoftwareReset,
    SleepModeOn,
    SleepModeOff,
    InvertOff,
    InvertOn,
    DisplayOff,
    DisplayOn,
    ColumnAddressSet,
    PageAddressSet,
    MemoryWrite,
    VerticalScrollDefine,
    MemoryAccessControl,
    VerticalScrollAddr,
    IdleModeOff,
    IdleModeOn,
    PixelFormatSet,
    SetBrightness,
    ContentAdaptiveBrightness,
    InterfaceModeControl,
    NormalModeFrameRate,
    IdleModeFrameRate,
    DisplayInversionControl,
    DisplayFunctionControl,
    EntryModeSet,
    PowerControl1,
    PowerControl2,
    VCOMControl,
    PositiveGammaControl,
    NegativeGammaControl,
    AdjustControl3,
}

impl Command {
    /// The opcode byte of the command.
    pub open spec fn spec_opcode(self) -> u8 {
        match self {
            Command::NOP => 0x00,
            Command::SoftwareReset => 0x01,
            Command::SleepModeOn => 0x10,
            Command::SleepModeOff => 0x11,
            Command::InvertOff => 0x20,
            Command::InvertOn => 0x21,
            Command::DisplayOff => 0x28,
            Command::DisplayOn => 0x29,
            Command::ColumnAddressSet => 0x2a,
            Command::PageAddressSet => 0x2b,
            Command::MemoryWrite => 0x2c,
            Command::VerticalScrollDefine => 0x33,
            Command::MemoryAccessControl => 0x36,
            Command::VerticalScrollAddr => 0x37,
            Command::IdleModeOff => 0x38,
            Command::IdleModeOn => 0x39,
            Command::PixelFormatSet => 0x3a,
            Command::SetBrightness => 0x51,
            Command::ContentAdaptiveBrightness => 0x55,
            Command::InterfaceModeControl => 0xb0,
            Command::NormalModeFrameRate => 0xb1,
            Command::IdleModeFrameRate => 0xb2,
            Command::DisplayInversionControl => 0xb4,
            Command::DisplayFunctionControl => 0xb6,
            Command::EntryModeSet => 0xb7,
            Command::PowerControl1 => 0xc0,
            Command::PowerControl2 => 0xc1,
            Command::VCOMControl => 0xc5,
            Command::PositiveGammaControl => 0xe0,
            Command::NegativeGammaControl => 0xe1,
            Command::AdjustControl3 => 0xf7,
        }
    }

    #[verifier::when_used_as_spec(spec_opcode)]
    pub fn opcode(self) -> (r: u8)
        ensures
            r == self.spec_opcode(),
    {
        match self {
            Command::NOP => 0x00,
            Command::SoftwareReset => 0x01,
            Command::SleepModeOn => 0x10,
            Command::SleepModeOff => 0x11,
            Command::InvertOff => 0x20,
            Command::InvertOn => 0x21,
            Command::DisplayOff => 0x28,
            Command::DisplayOn => 0x29,
            Command::ColumnAddressSet => 0x2a,
            Command::PageAddressSet => 0x2b,
            Command::MemoryWrite => 0x2c,
            Command::VerticalScrollDefine => 0x33,
            Command::MemoryAccessControl => 0x36,
            Command::VerticalScrollAddr => 0x37,
            Command::IdleModeOff => 0x38,
            Command::IdleModeOn => 0x39,
            Command::PixelFormatSet => 0x3a,
            Command::SetBrightness => 0x51,
            Command::ContentAdaptiveBrightness => 0x55,
            Command::InterfaceModeControl => 0xb0,
            Command::NormalModeFrameRate => 0xb1,
            Command::IdleModeFrameRate => 0xb2,
            Command::DisplayInversionControl => 0xb4,
            Command::DisplayFunctionControl => 0xb6,
            Command::EntryModeSet => 0xb7,
            Command::PowerControl1 => 0xc0,
            Command::PowerControl2 => 0xc1,
            Command::VCOMControl => 0xc5,
            Command::PositiveGammaControl => 0xe0,
            Command::NegativeGammaControl => 0xe1,
            Command::AdjustControl3 => 0xf7,
        }
    }
}

/// Specify state of specific mode of operation
#[derive(Clone, Copy, PartialEq, Eq, Structural)]
pub enum ModeState {
    On,
    Off,
}

/// Available Adaptive Brightness values
#[derive(Clone, Copy, PartialEq, Eq, Structural)]
pub enum AdaptiveBrightness {
    Off,
    UserInterfaceImage,
    StillPicture,
    MovingImage,
}

impl AdaptiveBrightness {
    /// The parameter byte of the setting.
    pub open spec fn spec_value(self) -> u8 {
        match self {
            AdaptiveBrightness::Off => 0x00,
            AdaptiveBrightness::UserInterfaceImage => 0x01,
            AdaptiveBrightness::StillPicture => 0x02,
            AdaptiveBrightness::MovingImage => 0x03,
        }
    }

    #[verifier::when_used_as_spec(spec_value)]
    pub fn value(self) -> (r: u8)
        ensures
            r == self.spec_value(),
    {
        match self {
            AdaptiveBrightness::Off => 0x00,
            AdaptiveBrightness::UserInterfaceImage => 0x01,
            AdaptiveBrightness::StillPicture => 0x02,
            AdaptiveBrightness::MovingImage => 0x03,
        }
    }
}

/// Available frame rate in Hz
#[derive(Clone, Copy, PartialEq, Eq, Structural)]
pub enum FrameRate {
    FrameRate119,
    FrameRate112,
    FrameRate106,
    FrameRate100,
    FrameRate95,
    FrameRate90,
    FrameRate86,
    FrameRate83,
    FrameRate79,
    FrameRate76,
    FrameRate73,
    FrameRate70,
    FrameRate68,
    FrameRate65,
    FrameRate63,
    FrameRate61,
}

impl FrameRate {
    /// The parameter byte of the frame rate.
    pub open spec fn spec_value(self) -> u8 {
        match self {
            FrameRate::FrameRate119 => 0x10,
            FrameRate::FrameRate112 => 0x11,
            FrameRate::FrameRate106 => 0x12,
            FrameRate::FrameRate100 => 0x13,
            FrameRate::FrameRate95 => 0x14,
            FrameRate::FrameRate90 => 0x15,
            FrameRate::FrameRate86 => 0x16,
            FrameRate::FrameRate83 => 0x17,
            FrameRate::FrameRate79 => 0x18,
            FrameRate::FrameRate76 => 0x19,
            FrameRate::FrameRate73 => 0x1a,
            FrameRate::FrameRate70 => 0x1b,
            FrameRate::FrameRate68 => 0x1c,
            FrameRate::FrameRate65 => 0x1d,
            FrameRate::FrameRate63 => 0x1e,
            FrameRate::FrameRate61 => 0x1f,
        }
    }

    #[verifier::when_used_as_spec(spec_value)]
    pub fn value(self) -> (r: u8)
        ensures
            r == self.spec_value(),
    {
        match self {
            FrameRate::FrameRate119 => 0x10,
            FrameRate::FrameRate112 => 0x11,
            FrameRate::FrameRate106 => 0x12,
            FrameRate::FrameRate100 => 0x13,
            FrameRate::FrameRate95 => 0x14,
            FrameRate::FrameRate90 => 0x15,
            FrameRate::FrameRate86 => 0x16,
            FrameRate::FrameRate83 => 0x17,
            FrameRate::FrameRate79 => 0x18,
            FrameRate::FrameRate76 => 0x19,
            FrameRate::FrameRate73 => 0x1a,
            FrameRate::FrameRate70 => 0x1b,
            FrameRate::FrameRate68 => 0x1c,
            FrameRate::FrameRate65 => 0x1d,
            FrameRate::FrameRate63 => 0x1e,
            FrameRate::FrameRate61 => 0x1f,
        }
    }
}

/// Frame rate clock division
#[derive(Clone, Copy, PartialEq, Eq, Structural)]
pub enum FrameRateClockDivision {
    Fosc,
    FoscDiv2,
    FoscDiv4,
    FoscDiv8,
}

impl FrameRateClockDivision {
    /// The parameter byte of the clock division.
    pub open spec fn spec_value(self) -> u8 {
        match self {
            FrameRateClockDivision::Fosc => 0x00,
            FrameRateClockDivision::FoscDiv2 => 0x01,
            FrameRateClockDivision::FoscDiv4 => 0x02,
            FrameRateClockDivision::FoscDiv8 => 0x03,
        }
    }

    #[verifier::when_used_as_spec(spec_value)]
    pub fn value(self) -> (r: u8)
        ensures
            r == self.spec_value(),
    {
        match self {
            FrameRateClockDivision::Fosc => 0x00,
            FrameRateClockDivision::FoscDiv2 => 0x01,
            FrameRateClockDivision::FoscDiv4 => 0x02,
            FrameRateClockDivision::FoscDiv8 => 0x03,
        }
    }
}

} // verus!
