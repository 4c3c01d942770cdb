//! Colours with 8-bit sRGB channels, and the few named colours the widgets use.

use vstd::prelude::*;

verus! {

/// A non-linear sRGB colour with alpha, one byte per channel.
#[derive(Clone, Copy, Debug, PartialEq, Eq, Structural)]
pub struct Srgba {
    pub red: u8,
    pub green: u8,
    pub blue: u8,
    pub alpha: u8,
}

/// `channel + amount`, held at 255.
pub open spec fn lifted(channel: u8, amount: u8) -> u8 {
    if channel + amount > 255 {
        255u8
    } else {
        (channel + amount) as u8
    }
}

fn lift(channel: u8, amount: u8) -> (r: u8)
    ensures
        r == lifted(channel, amount),
{
    if channel > 255 - amount {
        255
    } else {
        channel + amount
    }
}

impl Srgba {
    /// Fully transparent black: the colour that stands for "draw nothing".
    pub open spec fn spec_zero() -> Srgba {
        Srgba { red: 0, green: 0, blue: 0, alpha: 0 }
    }

    pub open spec fn spec_white() -> Srgba {
        Srgba { red: 255, green: 255, blue: 255, alpha: 255 }
    }

    pub open spec fn spec_black() -> Srgba {
        Srgba { red: 0, green: 0, blue: 0, alpha: 255 }
    }

    pub fn new(red: u8, green: u8, blue: u8, alpha: u8) -> (r: Srgba)
        ensures
            r == (Srgba { red, green, blue, alpha }),
    {
        Srgba { red, green, blue, alpha }
    }

    /// An opaque colour.
    pub fn rgb(red: u8, green: u8, blue: u8) -> (r: Srgba)
        ensures
            r == (Srgba { red, green, blue, alpha: 255 }),
    {
        Srgba { red, green, blue, alpha: 255 }
    }

    #[verifier::when_used_as_spec(spec_zero)]
    pub fn zero() -> (r: Srgba)
        ensures
            r == Srgba::spec_zero(),
    {
        Srgba { red: 0, green: 0, blue: 0, alpha: 0 }
    }

    #[verifier::when_used_as_spec(spec_white)]
    pub fn white() -> (r: Srgba)
        ensures
            r == Srgba::spec_white(),
    {
        Srgba { red: 255, green: 255, blue: 255, alpha: 255 }
    }

    #[verifier::when_used_as_spec(spec_black)]
    pub fn black() -> (r: Srgba)
        ensures
            r == Srgba::spec_black(),
    {
        Srgba { red: 0, green: 0, blue: 0, alpha: 255 }
    }

    /// Every channel, alpha included, at half its value.
    pub open spec fn spec_halved(self) -> Srgba {
        Srgba {
            red: self.red / 2,
            green: self.green / 2,
            blue: self.blue / 2,
            alpha: self.alpha / 2,
        }
    }

    /// Every channel, alpha included, at half its value.
    #[verifier::when_used_as_spec(spec_halved)]
    pub fn halved(self) -> (r: Srgba)
        ensures
            r == self.spec_halved(),
    {
        Srgba {
            red: self.red / 2,
            green: self.green / 2,
            blue: self.blue / 2,
            alpha: self.alpha / 2,
        }
    }

    /// Every channel, alpha included, raised by `amount` and held at 255.
    pub open spec fn spec_lightened(self, amount: u8) -> Srgba {
        Srgba {
            red: lifted(self.red, amount),
            green: lifted(self.green, amount),
            blue: lifted(self.blue, amount),
            alpha: lifted(self.alpha, amount),
        }
    }

    /// Every channel, alpha included, raised by `amount` and held at 255.
    #[verifier::when_used_as_spec(spec_lightened)]
    pub fn lightened(self, amount: u8) -> (r: Srgba)
        ensures
            r == self.spec_lightened(amount),
    {
        Srgba {
            red: lift(self.red, amount),
            green: lift(self.green, amount),
            blue: lift(self.blue, amount),
            alpha: lift(self.alpha, amount),
        }
    }
}

/// The accent colour of the default hover and click highlight.
pub open spec fn spec_blue_violet() -> Srgba {
    Srgba { red: 138, green: 43, blue: 226, alpha: 255 }
}

#[verifier::when_used_as_spec(spec_blue_violet)]
pub fn blue_violet() -> (r: Srgba)
    ensures
        r == spec_blue_violet(),
{
    Srgba::rgb(138, 43, 226)
}

/// The background of the root element.
pub open spec fn spec_green() -> Srgba {
    Srgba { red: 0, green: 128, blue: 0, alpha: 255 }
}

#[verifier::when_used_as_spec(spec_green)]
pub fn green() -> (r: Srgba)
    ensures
        r == spec_green(),
{
    Srgba::rgb(0, 128, 0)
}

/// The row container of the structure overlay.
pub open spec fn spec_green_200() -> Srgba {
    Srgba { red: 187, green: 247, blue: 208, alpha: 255 }
}

#[verifier::when_used_as_spec(spec_green_200)]
pub fn green_200() -> (r: Srgba)
    ensures
        r == spec_green_200(),
{
    Srgba::rgb(187, 247, 208)
}

/// The column container of the structure overlay.
pub open spec fn spec_red_400() -> Srgba {
    Srgba { red: 248, green: 113, blue: 113, alpha: 255 }
}

#[verifier::when_used_as_spec(spec_red_400)]
pub fn red_400() -> (r: Srgba)
    ensures
        r == spec_red_400(),
{
    Srgba::rgb(248, 113, 113)
}

/// The face of a plain button.
pub open spec fn spec_sea_green() -> Srgba {
    Srgba { red: 46, green: 139, blue: 87, alpha: 255 }
}

#[verifier::when_used_as_spec(spec_sea_green)]
pub fn sea_green() -> (r: Srgba)
    ensures
        r == spec_sea_green(),
{
    Srgba::rgb(46, 139, 87)
}

} // verus!
