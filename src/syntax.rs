//! What a parse yields: the form of the color and, for each component, how it
//! was written. Numerals are given as spans of the input, so that their text can
//! be read at whatever precision a caller needs.
use vstd::prelude::*;

verus! {

/// The bytes `input[start..end]`.
#[derive(Clone, Copy, Debug, PartialEq, Eq, Structural)]
pub struct Span {
    pub start: usize,
    pub end: usize,
}

/// One component: a numeral, a numeral followed by `%`, or the keyword `none`.
/// The span of a percentage does not hold the `%`.
#[derive(Clone, Copy, Debug, PartialEq, Eq, Structural)]
pub enum Component {
    Number(Span),
    Percentage(Span),
    Missing,
}

/// The unit of a hue; a hue written without a unit is in degrees.
#[derive(Clone, Copy, Debug, PartialEq, Eq, Structural)]
pub enum AngleUnit {
    Deg,
    Grad,
    Rad,
    Turn,
}

/// A hue: a numeral with its unit, or the keyword `none`.
#[derive(Clone, Copy, Debug, PartialEq, Eq, Structural)]
pub enum Hue {
    Angle(Span, AngleUnit),
    Missing,
}

/// A parsed color.
///
/// `Rgba8` is what hexadecimal notation and the named colors give: exact 8-bit
/// channels. The functional forms keep their components as written; `alpha` is
/// `None` where no alpha was given. `legacy` tells the comma-separated syntax
/// from the space-separated one.
#[allow(inconsistent_fields)]
#[derive(Clone, Copy, Debug, PartialEq, Eq, Structural)]
pub enum ColorSyntax {
    Rgba8 { red: u8, green: u8, blue: u8, alpha: u8 },
    Rgb {
        legacy: bool,
        red: Component,
        green: Component,
        blue: Component,
        alpha: Option<Component>,
    },
    Hsl {
        legacy: bool,
        hue: Hue,
        saturation: Component,
        lightness: Component,
        alpha: Option<Component>,
    },
    Hwb { hue: Hue, whiteness: Component, blackness: Component, alpha: Option<Component> },
}

/// The input is not a CSS color.
#[derive(Clone, Copy, Debug, PartialEq, Eq, Structural)]
pub struct ParseColorError;

} // verus!
