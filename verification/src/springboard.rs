//! SpringBoard services: interface orientation.

use vstd::prelude::*;

verus! {

/// Orientation of the device.
#[derive(Debug, Clone, Copy, PartialEq, Eq, Structural)]
pub enum InterfaceOrientation {
    /// Orientation is unknown or cannot be determined.
    Unknown,
    /// Portrait.
    Portrait,
    /// Portrait, upside down.
    PortraitUpsideDown,
    /// Landscape with the home button on the right.
    LandscapeRight,
    /// Landscape with the home button on the left.
    LandscapeLeft,
}

/// The orientation a reported `interfaceOrientation` value stands for:
/// 1 to 4 in the order of the variants, anything else unknown.
pub open spec fn orientation_of(value: u64) -> InterfaceOrientation {
    if value == 1 {
        InterfaceOrientation::Portrait
    } else if value == 2 {
        InterfaceOrientation::PortraitUpsideDown
    } else if value == 3 {
        InterfaceOrientation::LandscapeRight
    } else if value == 4 {
        InterfaceOrientation::LandscapeLeft
    } else {
        InterfaceOrientation::Unknown
    }
}

/// The numeric code of each orientation.
pub open spec fn orientation_code(o: InterfaceOrientation) -> u8 {
    match o {
        InterfaceOrientation::Unknown => 0,
        InterfaceOrientation::Portrait => 1,
        InterfaceOrientation::PortraitUpsideDown => 2,
        InterfaceOrientation::LandscapeRight => 3,
        InterfaceOrientation::LandscapeLeft => 4,
    }
}

impl InterfaceOrientation {
    /// The orientation that a reported `interfaceOrientation` value stands for.
    pub fn from_value(value: u64) -> (r: InterfaceOrientation)
        ensures
            r == orientation_of(value),
    {
        match value {
            1 => InterfaceOrientation::Portrait,
            2 => InterfaceOrientation::PortraitUpsideDown,
            3 => InterfaceOrientation::LandscapeRight,
            4 => InterfaceOrientation::LandscapeLeft,
            _ => InterfaceOrientation::Unknown,
        }
    }

    /// The orientation's numeric code.
    pub fn code(self) -> (r: u8)
        ensures
            r == orientation_code(self),
    {
        match self {
            InterfaceOrientation::Unknown => 0,
            InterfaceOrientation::Portrait => 1,
            InterfaceOrientation::PortraitUpsideDown => 2,
            InterfaceOrientation::LandscapeRight => 3,
            InterfaceOrientation::LandscapeLeft => 4,
        }
    }
}

/// Law: an orientation's code reads back as the same orientation.
pub proof fn law_orientation_code_roundtrip(o: InterfaceOrientation)
    ensures
        orientation_of(orientation_code(o) as u64) == o,
{
}

} // verus!
