//! Colour helpers.

use vstd::prelude::*;
use crate::color::Srgba;
use crate::color::lifted;

verus! {

/// The pastel variant of a colour: a quarter of white added to each colour
/// channel, fully opaque.
pub open spec fn pastel_of(c: Srgba) -> Srgba {
    Srgba {
        red: lifted(c.red, 64),
        green: lifted(c.green, 64),
        blue: lifted(c.blue, 64),
        alpha: 255,
    }
}

pub trait Pastel {
    fn pastel(&self) -> Srgba;
}

impl Pastel for Srgba {
    fn pastel(&self) -> (r: Srgba)
        ensures
            r == pastel_of(*self),
    {
        let lit = self.lightened(64);
        Srgba { red: lit.red, green: lit.green, blue: lit.blue, alpha: 255 }
    }
}

} // verus!
