//! Linear-light colors: three fixed-point channels.

use vstd::prelude::*;
use crate::fix::{clamp, clamp01, SCALE};

verus! {

/// A color in linear light; a well-formed channel lies in [0, 1].
#[derive(Clone, Copy, Debug, PartialEq, Eq, Structural)]
#[verifier::ext_equal]
pub struct Color {
    pub red: i64,
    pub green: i64,
    pub blue: i64,
}

pub open spec fn c_ok(c: Color) -> bool {
    &&& 0 <= c.red <= SCALE
    &&& 0 <= c.green <= SCALE
    &&& 0 <= c.blue <= SCALE
}

pub open spec fn black() -> Color {
    Color { red: 0, green: 0, blue: 0 }
}

impl Color {
    pub fn new(red: i64, green: i64, blue: i64) -> (r: Color)
        ensures
            r == (Color { red, green, blue }),
    {
        Color { red, green, blue }
    }

    /// Every channel clamped into [0, 1].
    pub fn clamped(self) -> (r: Color)
        ensures
            r.red == clamp01(self.red as int),
            r.green == clamp01(self.green as int),
            r.blue == clamp01(self.blue as int),
            c_ok(r),
    {
        Color { red: clamp(self.red), green: clamp(self.green), blue: clamp(self.blue) }
    }
}

} // verus!
