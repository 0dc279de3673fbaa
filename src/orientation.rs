//! Screen orientations and their memory-access-control bits.
use vstd::prelude::*;

verus! {

/// An orientation of the panel: the memory-access-control bits that select
/// it, and whether it is a landscape one.
pub trait Mode {
    /// The memory-access-control byte of the orientation.
    spec fn spec_mode(&self) -> u8;

    /// Whether the orientation is a landscape one.
    spec fn spec_is_landscape(&self) -> bool;

    fn mode(&self) -> (r: u8)
        ensures
            r == self.spec_mode(),
    ;

    fn is_landscape(&self) -> (r: bool)
        ensures
            r == self.spec_is_landscape(),
    ;
}

/// The default implementation of the Mode trait from above
/// Should work for most (but not all) boards
#[derive(Clone, Copy, PartialEq, Eq, Structural, Debug)]
pub enum Orientation {
    Portrait,
    PortraitFlipped,
    Landscape,
    LandscapeFlipped,
}

impl Mode for Orientation {
    open spec fn spec_mode(&self) -> u8 {
        match self {
            Orientation::Portrait => 0x40u8 | 0x08u8,
            Orientation::Landscape => 0x20u8 | 0x08u8,
            Orientation::PortraitFlipped => 0x80u8 | 0x08u8,
            Orientation::LandscapeFlipped => 0x40u8 | 0x80u8 | 0x20u8 | 0x08u8,
        }
    }

    open spec fn spec_is_landscape(&self) -> bool {
        match self {
            Orientation::Landscape | Orientation::LandscapeFlipped => true,
            Orientation::Portrait | Orientation::PortraitFlipped => false,
        }
    }

    fn mode(&self) -> (r: u8) {
        match self {
            Self::Portrait => 0x40 | 0x08,
            Self::Landscape => 0x20 | 0x08,
            Self::PortraitFlipped => 0x80 | 0x08,
            Self::LandscapeFlipped => 0x40 | 0x80 | 0x20 | 0x08,
        }
    }

    fn is_landscape(&self) -> (r: bool) {
        match self {
            Self::Landscape | Self::LandscapeFlipped => true,
            Self::Portrait | Self::PortraitFlipped => false,
        }
    }
}

} // verus!
