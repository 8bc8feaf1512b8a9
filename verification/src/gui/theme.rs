//! The accent that tells where a host is: amber for the local one, cyan for the
//! remotes.
use crate::gui::vt::Rgb;
use vstd::prelude::*;

verus! {

/// The accent of the local host.
pub open spec fn amber() -> Rgb {
    Rgb { r: 0xF3, g: 0xB2, b: 0x4C }
}

/// The accent of a remote.
pub open spec fn cyan() -> Rgb {
    Rgb { r: 0x54, g: 0xC7, b: 0xDA }
}

/// Accent for a host by origin.
pub fn rail(is_remote: bool) -> (r: Rgb)
    ensures
        r == (if is_remote {
            cyan()
        } else {
            amber()
        }),
        is_remote ==> r.r == 0x54 && r.g == 0xC7 && r.b == 0xDA,
        !is_remote ==> r.r == 0xF3 && r.g == 0xB2 && r.b == 0x4C,
{
    if is_remote {
        Rgb { r: 0x54, g: 0xC7, b: 0xDA }
    } else {
        Rgb { r: 0xF3, g: 0xB2, b: 0x4C }
    }
}

} // verus!
