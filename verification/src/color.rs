//! Colours in fixed point.
use vstd::prelude::*;
use crate::units::{DIM_GRAY, UNIT};

verus! {

/// A colour: red, green, blue and opacity, each from zero to `UNIT`.
#[derive(Clone, Copy, Debug, PartialEq, Eq, Structural)]
pub struct Color {
    pub r: i64,
    pub g: i64,
    pub b: i64,
    pub a: i64,
}

/// `c` is a channel value: between zero and `UNIT`.
pub open spec fn channel_in_range(c: int) -> bool {
    0 <= c <= UNIT
}

/// `w` is a sample of a wave: between `-UNIT` and `UNIT`.
pub open spec fn wave_in_range(w: int) -> bool {
    -UNIT <= w <= UNIT
}

/// The channel that a wave sample gives: half of one plus half of the
/// sample, rounded down.
pub open spec fn channel_of_wave(w: int) -> int {
    (UNIT + w) / 2
}

impl Color {
    /// Every channel is between zero and `UNIT`.
    pub open spec fn wf(self) -> bool {
        &&& channel_in_range(self.r as int)
        &&& channel_in_range(self.g as int)
        &&& channel_in_range(self.b as int)
        &&& channel_in_range(self.a as int)
    }

    /// The same colour, fully opaque.
    pub open spec fn opaque(self) -> Color {
        Color { a: UNIT, ..self }
    }

    /// The opaque colour with the given channels, if each is between zero
    /// and `UNIT`.
    pub fn new(r: i64, g: i64, b: i64) -> (c: Option<Color>)
        ensures
            c.is_some() <==> (Color { r, g, b, a: UNIT }).wf(),
            c.is_some() ==> c == Some(Color { r, g, b, a: UNIT }),
    {
        if 0 <= r && r <= UNIT && 0 <= g && g <= UNIT && 0 <= b && b <= UNIT {
            Some(Color { r, g, b, a: UNIT })
        } else {
            None
        }
    }

    /// The opaque colour whose channels swing with three wave samples, if
    /// each sample is between `-UNIT` and `UNIT`.
    pub fn from_waves(r: i64, g: i64, b: i64) -> (c: Option<Color>)
        ensures
            c.is_some() <==> wave_in_range(r as int) && wave_in_range(g as int) && wave_in_range(
                b as int,
            ),
            c.is_some() ==> c.unwrap().wf(),
            c.is_some() ==> c.unwrap().r == channel_of_wave(r as int),
            c.is_some() ==> c.unwrap().g == channel_of_wave(g as int),
            c.is_some() ==> c.unwrap().b == channel_of_wave(b as int),
            c.is_some() ==> c.unwrap().a == UNIT,
    {
        if -UNIT <= r && r <= UNIT && -UNIT <= g && g <= UNIT && -UNIT <= b && b <= UNIT {
            Some(Color { r: (UNIT + r) / 2, g: (UNIT + g) / 2, b: (UNIT + b) / 2, a: UNIT })
        } else {
            None
        }
    }

    /// Whether every channel is between zero and `UNIT`.
    pub fn is_valid(&self) -> (ok: bool)
        ensures
            ok == self.wf(),
    {
        0 <= self.r && self.r <= UNIT && 0 <= self.g && self.g <= UNIT && 0 <= self.b && self.b
            <= UNIT && 0 <= self.a && self.a <= UNIT
    }

    /// The gray of the connector to the second nearest star.
    pub fn dim_gray() -> (c: Color)
        ensures
            c == (Color { r: DIM_GRAY, g: DIM_GRAY, b: DIM_GRAY, a: UNIT }),
            c.wf(),
    {
        Color { r: DIM_GRAY, g: DIM_GRAY, b: DIM_GRAY, a: UNIT }
    }
}

} // verus!
