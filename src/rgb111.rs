//! The 3-bit colour of the packed pixel format.
use vstd::prelude::*;

verus! {

/// One of the eight colours of the 3-bit-per-pixel format.
#[derive(Copy, Clone, PartialEq, Eq, Structural, Hash, Debug)]
pub enum Rgb111 {
    BLACK,
    RED,
    GREEN,
    BLUE,
    YELLOW,
    MAGENTA,
    CYAN,
    WHITE,
}

impl Rgb111 {
    /// Red channel, 0 or 1.
    pub open spec fn spec_r(self) -> u8 {
        match self {
            Rgb111::RED | Rgb111::YELLOW | Rgb111::MAGENTA | Rgb111::WHITE => 1,
            _ => 0,
        }
    }

    /// Green channel, 0 or 1.
    pub open spec fn spec_g(self) -> u8 {
        match self {
            Rgb111::GREEN | Rgb111::YELLOW | Rgb111::CYAN | Rgb111::WHITE => 1,
            _ => 0,
        }
    }

    /// Blue channel, 0 or 1.
    pub open spec fn spec_b(self) -> u8 {
        match self {
            Rgb111::BLUE | Rgb111::MAGENTA | Rgb111::CYAN | Rgb111::WHITE => 1,
            _ => 0,
        }
    }

    /// The 3-bit code of the colour, `0brgb`.
    pub open spec fn code(self) -> u8 {
        (4 * self.spec_r() + 2 * self.spec_g() + self.spec_b()) as u8
    }

    /// Returns the color in binary form.
    /// Format `0bxxxxxrgb`
    pub fn raw(&self) -> (r: u8)
        ensures
            r == self.code(),
            r < 8,
    {
        match self {
            Self::BLACK => 0b000,
            Self::BLUE => 0b001,
            Self::CYAN => 0b011,
            Self::GREEN => 0b010,
            Self::MAGENTA => 0b101,
            Self::RED => 0b100,
            Self::WHITE => 0b111,
            Self::YELLOW => 0b110,
        }
    }

    /// The storage value of the colour: its code.
    pub fn into_storage(self) -> (r: u8)
        ensures
            r == self.code(),
    {
        self.raw()
    }

    /// Red channel, 0 or 1.
    pub fn r(&self) -> (r: u8)
        ensures
            r == self.spec_r(),
    {
        match self {
            Self::RED | Self::YELLOW | Self::MAGENTA | Self::WHITE => 1,
            _ => 0,
        }
    }

    /// Green channel, 0 or 1.
    pub fn g(&self) -> (r: u8)
        ensures
            r == self.spec_g(),
    {
        match self {
            Self::GREEN | Self::YELLOW | Self::CYAN | Self::WHITE => 1,
            _ => 0,
        }
    }

    /// Blue channel, 0 or 1.
    pub fn b(&self) -> (r: u8)
        ensures
            r == self.spec_b(),
    {
        match self {
            Self::BLUE | Self::MAGENTA | Self::CYAN | Self::WHITE => 1,
            _ => 0,
        }
    }
}

} // verus!
