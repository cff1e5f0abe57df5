//! A parser for CSS color values: the hexadecimal notation, `rgb()`/`rgba()`,
//! `hsl()`/`hsla()` and `hwb()` in their legacy comma-separated and modern
//! space-separated forms, and the named colors.
//!
//! [`parser::parse_css_color`] reads a whole input and says exactly when it is
//! a color: its contract is the grammar [`parser::css_color`]. What it returns
//! is a [`syntax::ColorSyntax`]: exact 8-bit channels for hex and named colors,
//! and for the functional forms each component as written (a span of the input
//! for each numeral, its `%` or angle unit, or `none`), ready to be evaluated at
//! whatever precision the caller uses.
//!
//! - `scan`: byte classes and the scanning primitives.
//! - `number`: the `<number>` token.
//! - `parser`: the grammar, stated and parsed.
//! - `named`: the table of named colors.
//! - `syntax`: the parse result and the error.
//! - `laws`, `ascii_case`: properties of the grammar as a whole.
pub mod ascii_case;
pub mod laws;
pub mod named;
pub mod number;
pub mod parser;
pub mod scan;
pub mod syntax;
