//! The grammar of CSS colors: the hexadecimal notation, `rgb()`/`rgba()`,
//! `hsl()`/`hsla()`, `hwb()` and the named colors.
//!
//! Each production is stated as a spec function over the whole input and a
//! position in it, and parsed by an executable function held to that statement.
//! A production commits once it has recognised its start: there is no fallback
//! to another production after that.
use crate::named::{named_color, parse_named};
use crate::number::{byte_is, number_end, number_end_from};
use crate::scan::{
    consume_byte, consume_function, consume_name, consume_none, function_len, hex_digit,
    is_ident_start, name_len, skip_ws_from, spec_hex_value, spec_is_ident_start, ws_end,
    NONE_NAME,
};
use crate::syntax::{AngleUnit, ColorSyntax, Component, Hue, ParseColorError, Span};
use vstd::prelude::*;
use vstd::slice::slice_subrange;

verus! {

pub const RGB_NAME: [u8; 3] = [0x72, 0x67, 0x62];

pub const RGBA_NAME: [u8; 4] = [0x72, 0x67, 0x62, 0x61];

pub const HSL_NAME: [u8; 3] = [0x68, 0x73, 0x6C];

pub const HSLA_NAME: [u8; 4] = [0x68, 0x73, 0x6C, 0x61];

pub const HWB_NAME: [u8; 3] = [0x68, 0x77, 0x62];

pub const DEG_NAME: [u8; 3] = [0x64, 0x65, 0x67];

pub const GRAD_NAME: [u8; 4] = [0x67, 0x72, 0x61, 0x64];

pub const RAD_NAME: [u8; 3] = [0x72, 0x61, 0x64];

pub const TURN_NAME: [u8; 4] = [0x74, 0x75, 0x72, 0x6E];

pub open spec fn span(p: int, e: int) -> Span {
    Span { start: p as usize, end: e as usize }
}

/// Whether the keyword `name` stands at `p`.
pub open spec fn keyword_at(s: Seq<u8>, p: int, name: Seq<u8>) -> bool {
    name_len(s.skip(p), name) is Some
}

/// Whether exactly `)` is left at `p`.
pub open spec fn closes_at(s: Seq<u8>, p: int) -> bool {
    p + 1 == s.len() && byte_is(s, p, 0x29)
}

/// Whether an executable parse result is the spec one: the same end position
/// and value, or failure on both sides.
pub open spec fn agrees<T>(r: Result<(usize, T), ()>, o: Option<(int, T)>, len: int) -> bool {
    match r {
        Ok((e, v)) => o == Some((e as int, v)) && e <= len,
        Err(_) => o is None,
    }
}

pub open spec fn number_at(s: Seq<u8>, p: int) -> Option<(int, Span)> {
    match number_end(s, p) {
        Some(e) => Some((e, span(p, e))),
        None => None,
    }
}

/// `<percentage>`: a numeral directly followed by `%`.
pub open spec fn percentage_at(s: Seq<u8>, p: int) -> Option<(int, Span)> {
    match number_end(s, p) {
        Some(e) => if byte_is(s, e, 0x25) {
            Some((e + 1, span(p, e)))
        } else {
            None
        },
        None => None,
    }
}

/// `<number> | <percentage>`.
pub open spec fn number_or_percentage_at(s: Seq<u8>, p: int) -> Option<(int, Component)> {
    match number_end(s, p) {
        Some(e) => if byte_is(s, e, 0x25) {
            Some((e + 1, Component::Percentage(span(p, e))))
        } else {
            Some((e, Component::Number(span(p, e))))
        },
        None => None,
    }
}

/// `<number> | <percentage> | none`.
pub open spec fn component_at(s: Seq<u8>, p: int) -> Option<(int, Component)> {
    match number_or_percentage_at(s, p) {
        Some(x) => Some(x),
        None => if keyword_at(s, p, NONE_NAME@) {
            Some((p + 4, Component::Missing))
        } else {
            None
        },
    }
}

/// `<hue>`: a numeral with no unit, or with `deg`, `grad`, `rad` or `turn`.
pub open spec fn hue_at(s: Seq<u8>, p: int) -> Option<(int, Hue)> {
    match number_end(s, p) {
        Some(e) => {
            let v = span(p, e);
            if !spec_is_ident_start(s.skip(e)) {
                Some((e, Hue::Angle(v, AngleUnit::Deg)))
            } else if keyword_at(s, e, DEG_NAME@) {
                Some((e + 3, Hue::Angle(v, AngleUnit::Deg)))
            } else if keyword_at(s, e, GRAD_NAME@) {
                Some((e + 4, Hue::Angle(v, AngleUnit::Grad)))
            } else if keyword_at(s, e, RAD_NAME@) {
                Some((e + 3, Hue::Angle(v, AngleUnit::Rad)))
            } else if keyword_at(s, e, TURN_NAME@) {
                Some((e + 4, Hue::Angle(v, AngleUnit::Turn)))
            } else {
                None
            }
        },
        None => None,
    }
}

/// `<hue> | none`.
pub open spec fn hue_or_none_at(s: Seq<u8>, p: int) -> Option<(int, Hue)> {
    match hue_at(s, p) {
        Some(x) => Some(x),
        None => if keyword_at(s, p, NONE_NAME@) {
            Some((p + 4, Hue::Missing))
        } else {
            None
        },
    }
}

/// The separator before the alpha: `,` in the legacy syntax, `/` in the other.
pub open spec fn alpha_separator(legacy: bool) -> u8 {
    if legacy {
        0x2C
    } else {
        0x2F
    }
}

/// The alpha after its separator: `<number> | <percentage>`, or `none` outside
/// the legacy syntax; with the whitespace after it.
pub open spec fn alpha_value_at(s: Seq<u8>, p: int, legacy: bool) -> Option<(int, Component)> {
    match number_or_percentage_at(s, p) {
        Some((e, a)) => Some((ws_end(s, e), a)),
        None => if !legacy && keyword_at(s, p, NONE_NAME@) {
            Some((ws_end(s, p + 4), Component::Missing))
        } else {
            None
        },
    }
}

/// The end of a functional form at `p`: an optional alpha, then `)` as the last
/// byte of the input.
pub open spec fn alpha_close_at(s: Seq<u8>, p: int, legacy: bool) -> Option<Option<Component>> {
    if byte_is(s, p, alpha_separator(legacy)) {
        match alpha_value_at(s, ws_end(s, p + 1), legacy) {
            Some((e, a)) => if closes_at(s, e) {
                Some(Some(a))
            } else {
                None
            },
            None => None,
        }
    } else if closes_at(s, p) {
        Some(None)
    } else {
        None
    }
}

/// A channel of the legacy `rgb()` syntax: all three are numbers, or all are
/// percentages.
pub open spec fn legacy_channel_at(s: Seq<u8>, p: int, percent: bool) -> Option<(int, Component)> {
    if percent {
        match percentage_at(s, p) {
            Some((e, v)) => Some((e, Component::Percentage(v))),
            None => None,
        }
    } else {
        match number_at(s, p) {
            Some((e, v)) => Some((e, Component::Number(v))),
            None => None,
        }
    }
}

/// The legacy `rgb()` syntax after its first channel and comma.
pub open spec fn rgb_legacy_at(s: Seq<u8>, p: int, red: Component) -> Option<ColorSyntax> {
    let percent = red is Percentage;
    match legacy_channel_at(s, p, percent) {
        Some((e1, green)) => {
            let q1 = ws_end(s, e1);
            if byte_is(s, q1, 0x2C) {
                match legacy_channel_at(s, ws_end(s, q1 + 1), percent) {
                    Some((e2, blue)) => match alpha_close_at(s, ws_end(s, e2), true) {
                        Some(alpha) => Some(
                            ColorSyntax::Rgb { legacy: true, red, green, blue, alpha },
                        ),
                        None => None,
                    },
                    None => None,
                }
            } else {
                None
            }
        },
        None => None,
    }
}

/// The space-separated `rgb()` syntax after its first channel.
pub open spec fn rgb_modern_at(s: Seq<u8>, p: int, red: Component) -> Option<ColorSyntax> {
    match component_at(s, p) {
        Some((e1, green)) => match component_at(s, ws_end(s, e1)) {
            Some((e2, blue)) => match alpha_close_at(s, ws_end(s, e2), false) {
                Some(alpha) => Some(ColorSyntax::Rgb { legacy: false, red, green, blue, alpha }),
                None => None,
            },
            None => None,
        },
        None => None,
    }
}

/// The arguments of `rgb(` or `rgba(`, from `p` to the end of the input.
pub open spec fn rgb_at(s: Seq<u8>, p: int) -> Option<ColorSyntax> {
    match number_or_percentage_at(s, p) {
        Some((e, red)) => {
            let q = ws_end(s, e);
            if byte_is(s, q, 0x2C) {
                rgb_legacy_at(s, ws_end(s, q + 1), red)
            } else {
                rgb_modern_at(s, q, red)
            }
        },
        None => if keyword_at(s, p, NONE_NAME@) {
            rgb_modern_at(s, ws_end(s, p + 4), Component::Missing)
        } else {
            None
        },
    }
}

/// The legacy `hsl()` syntax after its hue and comma.
pub open spec fn hsl_legacy_at(s: Seq<u8>, p: int, hue: Hue) -> Option<ColorSyntax> {
    match percentage_at(s, p) {
        Some((e1, saturation)) => {
            let q1 = ws_end(s, e1);
            if byte_is(s, q1, 0x2C) {
                match percentage_at(s, ws_end(s, q1 + 1)) {
                    Some((e2, lightness)) => match alpha_close_at(s, ws_end(s, e2), true) {
                        Some(alpha) => Some(
                            ColorSyntax::Hsl {
                                legacy: true,
                                hue,
                                saturation: Component::Percentage(saturation),
                                lightness: Component::Percentage(lightness),
                                alpha,
                            },
                        ),
                        None => None,
                    },
                    None => None,
                }
            } else {
                None
            }
        },
        None => None,
    }
}

/// The space-separated `hsl()` syntax after its hue.
pub open spec fn hsl_modern_at(s: Seq<u8>, p: int, hue: Hue) -> Option<ColorSyntax> {
    match component_at(s, p) {
        Some((e1, saturation)) => match component_at(s, ws_end(s, e1)) {
            Some((e2, lightness)) => match alpha_close_at(s, ws_end(s, e2), false) {
                Some(alpha) => Some(
                    ColorSyntax::Hsl { legacy: false, hue, saturation, lightness, alpha },
                ),
                None => None,
            },
            None => None,
        },
        None => None,
    }
}

/// The arguments of `hsl(` or `hsla(`, from `p` to the end of the input.
pub open spec fn hsl_at(s: Seq<u8>, p: int) -> Option<ColorSyntax> {
    match hue_at(s, p) {
        Some((e, hue)) => {
            let q = ws_end(s, e);
            if byte_is(s, q, 0x2C) {
                hsl_legacy_at(s, ws_end(s, q + 1), hue)
            } else {
                hsl_modern_at(s, q, hue)
            }
        },
        None => if keyword_at(s, p, NONE_NAME@) {
            hsl_modern_at(s, ws_end(s, p + 4), Hue::Missing)
        } else {
            None
        },
    }
}

/// The arguments of `hwb(`, from `p` to the end of the input. There is no
/// legacy syntax for it.
pub open spec fn hwb_at(s: Seq<u8>, p: int) -> Option<ColorSyntax> {
    match hue_or_none_at(s, p) {
        Some((e0, hue)) => match component_at(s, ws_end(s, e0)) {
            Some((e1, whiteness)) => match component_at(s, ws_end(s, e1)) {
                Some((e2, blackness)) => match alpha_close_at(s, ws_end(s, e2), false) {
                    Some(alpha) => Some(ColorSyntax::Hwb { hue, whiteness, blackness, alpha }),
                    None => None,
                },
                None => None,
            },
            None => None,
        },
        None => None,
    }
}

pub open spec fn all_hex(t: Seq<u8>) -> bool {
    forall|i: int| 0 <= i < t.len() ==> spec_hex_value(#[trigger] t[i]) is Ok
}

pub open spec fn hex_at(t: Seq<u8>, i: int) -> u8 {
    spec_hex_value(t[i])->Ok_0
}

/// The byte that two hex digits at `i` give.
pub open spec fn hex_pair(t: Seq<u8>, i: int) -> u8 {
    (hex_at(t, i) * 16 + hex_at(t, i + 1)) as u8
}

/// The byte that one hex digit at `i` gives in the short notation.
pub open spec fn hex_short(t: Seq<u8>, i: int) -> u8 {
    (hex_at(t, i) * 17) as u8
}

/// The digits after `#`: 3, 4, 6 or 8 of them, the short forms with each digit
/// doubled, the 3- and 6-digit forms opaque.
pub open spec fn hex_color(t: Seq<u8>) -> Option<ColorSyntax> {
    if !all_hex(t) {
        None
    } else if t.len() == 8 {
        Some(
            ColorSyntax::Rgba8 {
                red: hex_pair(t, 0),
                green: hex_pair(t, 2),
                blue: hex_pair(t, 4),
                alpha: hex_pair(t, 6),
            },
        )
    } else if t.len() == 6 {
        Some(
            ColorSyntax::Rgba8 {
                red: hex_pair(t, 0),
                green: hex_pair(t, 2),
                blue: hex_pair(t, 4),
                alpha: 255,
            },
        )
    } else if t.len() == 4 {
        Some(
            ColorSyntax::Rgba8 {
                red: hex_short(t, 0),
                green: hex_short(t, 1),
                blue: hex_short(t, 2),
                alpha: hex_short(t, 3),
            },
        )
    } else if t.len() == 3 {
        Some(
            ColorSyntax::Rgba8 {
                red: hex_short(t, 0),
                green: hex_short(t, 1),
                blue: hex_short(t, 2),
                alpha: 255,
            },
        )
    } else {
        None
    }
}

/// The color that `s` denotes, if it is one.
#[verifier::opaque]
pub open spec fn css_color(s: Seq<u8>) -> Option<ColorSyntax> {
    if byte_is(s, 0, 0x23) {
        hex_color(s.skip(1))
    } else if function_len(s, RGB_NAME@) is Some {
        rgb_at(s, function_len(s, RGB_NAME@)->Some_0 as int)
    } else if function_len(s, RGBA_NAME@) is Some {
        rgb_at(s, function_len(s, RGBA_NAME@)->Some_0 as int)
    } else if function_len(s, HSL_NAME@) is Some {
        hsl_at(s, function_len(s, HSL_NAME@)->Some_0 as int)
    } else if function_len(s, HSLA_NAME@) is Some {
        hsl_at(s, function_len(s, HSLA_NAME@)->Some_0 as int)
    } else if function_len(s, HWB_NAME@) is Some {
        hwb_at(s, function_len(s, HWB_NAME@)->Some_0 as int)
    } else {
        named_color(s)
    }
}

/// Whether the keyword `name` stands at `pos`.
fn keyword(input: &[u8], pos: usize, name: &[u8]) -> (r: bool)
    requires
        pos <= input@.len(),
        spec_is_ident_start(name@),
    ensures
        r == keyword_at(input@, pos as int, name@),
        r ==> pos + name@.len() <= input.len(),
{
    let rest = slice_subrange(input, pos, input.len());
    assert(rest@ =~= input@.skip(pos as int));
    match consume_name(rest, name) {
        Ok(_) => true,
        Err(_) => false,
    }
}

/// Whether the keyword `none` stands at `pos`.
fn none_at(input: &[u8], pos: usize) -> (r: bool)
    requires
        pos <= input@.len(),
    ensures
        r == keyword_at(input@, pos as int, NONE_NAME@),
        r ==> pos + 4 <= input.len(),
{
    let rest = slice_subrange(input, pos, input.len());
    assert(rest@ =~= input@.skip(pos as int));
    match consume_none(rest) {
        Ok(_) => true,
        Err(_) => false,
    }
}

fn byte_at(input: &[u8], pos: usize, b: u8) -> (r: bool)
    ensures
        r == byte_is(input@, pos as int, b),
        r ==> pos + 1 <= input.len(),
{
    pos < input.len() && input[pos] == b
}

/// A numeral at `pos`, as a span.
pub fn parse_number(input: &[u8], pos: usize) -> (r: Result<(usize, Span), ()>)
    requires
        pos <= input@.len(),
    ensures
        agrees(r, number_at(input@, pos as int), input@.len() as int),
{
    let end = number_end_from(input, pos)?;
    Ok((end, Span { start: pos, end }))
}

/// A numeral directly followed by `%` at `pos`.
pub fn parse_percentage(input: &[u8], pos: usize) -> (r: Result<(usize, Span), ()>)
    requires
        pos <= input@.len(),
    ensures
        agrees(r, percentage_at(input@, pos as int), input@.len() as int),
{
    let (end, value) = parse_number(input, pos)?;
    if byte_at(input, end, 0x25) {
        Ok((end + 1, value))
    } else {
        Err(())
    }
}

/// A numeral at `pos`, with a `%` after it if one is there.
pub fn parse_number_or_percentage(input: &[u8], pos: usize) -> (r: Result<(usize, Component), ()>)
    requires
        pos <= input@.len(),
    ensures
        agrees(r, number_or_percentage_at(input@, pos as int), input@.len() as int),
{
    let (end, value) = parse_number(input, pos)?;
    if byte_at(input, end, 0x25) {
        Ok((end + 1, Component::Percentage(value)))
    } else {
        Ok((end, Component::Number(value)))
    }
}

/// A numeral, a percentage or `none` at `pos`.
pub fn parse_component(input: &[u8], pos: usize) -> (r: Result<(usize, Component), ()>)
    requires
        pos <= input@.len(),
    ensures
        agrees(r, component_at(input@, pos as int), input@.len() as int),
{
    match parse_number_or_percentage(input, pos) {
        Ok(x) => Ok(x),
        Err(_) => {
            if none_at(input, pos) {
                Ok((pos + 4, Component::Missing))
            } else {
                Err(())
            }
        },
    }
}

/// A hue at `pos`: a numeral with no unit or with one of the angle units.
pub fn parse_hue(input: &[u8], pos: usize) -> (r: Result<(usize, Hue), ()>)
    requires
        pos <= input@.len(),
    ensures
        agrees(r, hue_at(input@, pos as int), input@.len() as int),
{
    let (end, value) = parse_number(input, pos)?;
    let rest = slice_subrange(input, end, input.len());
    assert(rest@ =~= input@.skip(end as int));
    if !is_ident_start(rest) {
        Ok((end, Hue::Angle(value, AngleUnit::Deg)))
    } else if keyword(input, end, DEG_NAME.as_slice()) {
        Ok((end + 3, Hue::Angle(value, AngleUnit::Deg)))
    } else if keyword(input, end, GRAD_NAME.as_slice()) {
        Ok((end + 4, Hue::Angle(value, AngleUnit::Grad)))
    } else if keyword(input, end, RAD_NAME.as_slice()) {
        Ok((end + 3, Hue::Angle(value, AngleUnit::Rad)))
    } else if keyword(input, end, TURN_NAME.as_slice()) {
        Ok((end + 4, Hue::Angle(value, AngleUnit::Turn)))
    } else {
        Err(())
    }
}

/// A hue or `none` at `pos`.
fn parse_hue_or_none(input: &[u8], pos: usize) -> (r: Result<(usize, Hue), ()>)
    requires
        pos <= input@.len(),
    ensures
        agrees(r, hue_or_none_at(input@, pos as int), input@.len() as int),
{
    match parse_hue(input, pos) {
        Ok(x) => Ok(x),
        Err(_) => {
            if none_at(input, pos) {
                Ok((pos + 4, Hue::Missing))
            } else {
                Err(())
            }
        },
    }
}

/// The alpha after its separator, and the whitespace after it.
fn parse_alpha_value(input: &[u8], pos: usize, legacy: bool) -> (r: Result<(usize, Component), ()>)
    requires
        pos <= input@.len(),
    ensures
        agrees(r, alpha_value_at(input@, pos as int, legacy), input@.len() as int),
{
    match parse_number_or_percentage(input, pos) {
        Ok((end, alpha)) => Ok((skip_ws_from(input, end), alpha)),
        Err(_) => {
            if !legacy && none_at(input, pos) {
                Ok((skip_ws_from(input, pos + 4), Component::Missing))
            } else {
                Err(())
            }
        },
    }
}

/// The optional alpha of a functional form and its closing `)`.
fn parse_alpha_and_close(input: &[u8], pos: usize, legacy: bool) -> (r: Result<Option<Component>, ()>)
    requires
        pos <= input@.len(),
    ensures
        match r {
            Ok(a) => alpha_close_at(input@, pos as int, legacy) == Some(a),
            Err(_) => alpha_close_at(input@, pos as int, legacy) is None,
        },
{
    let separator: u8 = if legacy {
        0x2C
    } else {
        0x2F
    };
    if byte_at(input, pos, separator) {
        let (end, alpha) = parse_alpha_value(input, skip_ws_from(input, pos + 1), legacy)?;
        if end < input.len() && end + 1 == input.len() && input[end] == 0x29 {
            Ok(Some(alpha))
        } else {
            Err(())
        }
    } else if pos < input.len() && pos + 1 == input.len() && input[pos] == 0x29 {
        Ok(None)
    } else {
        Err(())
    }
}

/// A channel of the legacy `rgb()` syntax.
fn parse_legacy_channel(input: &[u8], pos: usize, percent: bool) -> (r: Result<(usize, Component), ()>)
    requires
        pos <= input@.len(),
    ensures
        agrees(r, legacy_channel_at(input@, pos as int, percent), input@.len() as int),
{
    if percent {
        let (end, value) = parse_percentage(input, pos)?;
        Ok((end, Component::Percentage(value)))
    } else {
        let (end, value) = parse_number(input, pos)?;
        Ok((end, Component::Number(value)))
    }
}

/// The arguments of `rgb(` or `rgba(` from `pos` on, through the closing `)`,
/// which must end the input.
pub fn parse_rgb(input: &[u8], pos: usize) -> (r: Result<ColorSyntax, ()>)
    requires
        pos <= input@.len(),
    ensures
        match r {
            Ok(c) => rgb_at(input@, pos as int) == Some(c),
            Err(_) => rgb_at(input@, pos as int) is None,
        },
{
    let (pos, red, legacy) = match parse_number_or_percentage(input, pos) {
        Ok((end, red)) => {
            let next = skip_ws_from(input, end);
            if byte_at(input, next, 0x2C) {
                (skip_ws_from(input, next + 1), red, true)
            } else {
                (next, red, false)
            }
        },
        Err(_) => {
            if none_at(input, pos) {
                (skip_ws_from(input, pos + 4), Component::Missing, false)
            } else {
                return Err(());
            }
        },
    };
    if legacy {
        let percent = match red {
            Component::Percentage(_) => true,
            _ => false,
        };
        let (end, green) = parse_legacy_channel(input, pos, percent)?;
        let next = skip_ws_from(input, end);
        if !byte_at(input, next, 0x2C) {
            return Err(());
        }
        let (end, blue) = parse_legacy_channel(input, skip_ws_from(input, next + 1), percent)?;
        let alpha = parse_alpha_and_close(input, skip_ws_from(input, end), true)?;
        Ok(ColorSyntax::Rgb { legacy: true, red, green, blue, alpha })
    } else {
        let (end, green) = parse_component(input, pos)?;
        let (end, blue) = parse_component(input, skip_ws_from(input, end))?;
        let alpha = parse_alpha_and_close(input, skip_ws_from(input, end), false)?;
        Ok(ColorSyntax::Rgb { legacy: false, red, green, blue, alpha })
    }
}

/// The arguments of `hsl(` or `hsla(` from `pos` on, through the closing `)`,
/// which must end the input.
pub fn parse_hsl(input: &[u8], pos: usize) -> (r: Result<ColorSyntax, ()>)
    requires
        pos <= input@.len(),
    ensures
        match r {
            Ok(c) => hsl_at(input@, pos as int) == Some(c),
            Err(_) => hsl_at(input@, pos as int) is None,
        },
{
    let (pos, hue, legacy) = match parse_hue(input, pos) {
        Ok((end, hue)) => {
            let next = skip_ws_from(input, end);
            if byte_at(input, next, 0x2C) {
                (skip_ws_from(input, next + 1), hue, true)
            } else {
                (next, hue, false)
            }
        },
        Err(_) => {
            if none_at(input, pos) {
                (skip_ws_from(input, pos + 4), Hue::Missing, false)
            } else {
                return Err(());
            }
        },
    };
    if legacy {
        let (end, saturation) = parse_percentage(input, pos)?;
        let next = skip_ws_from(input, end);
        if !byte_at(input, next, 0x2C) {
            return Err(());
        }
        let (end, lightness) = parse_percentage(input, skip_ws_from(input, next + 1))?;
        let alpha = parse_alpha_and_close(input, skip_ws_from(input, end), true)?;
        Ok(
            ColorSyntax::Hsl {
                legacy: true,
                hue,
                saturation: Component::Percentage(saturation),
                lightness: Component::Percentage(lightness),
                alpha,
            },
        )
    } else {
        let (end, saturation) = parse_component(input, pos)?;
        let (end, lightness) = parse_component(input, skip_ws_from(input, end))?;
        let alpha = parse_alpha_and_close(input, skip_ws_from(input, end), false)?;
        Ok(ColorSyntax::Hsl { legacy: false, hue, saturation, lightness, alpha })
    }
}

/// The arguments of `hwb(` from `pos` on, through the closing `)`, which must
/// end the input.
pub fn parse_hwb(input: &[u8], pos: usize) -> (r: Result<ColorSyntax, ()>)
    requires
        pos <= input@.len(),
    ensures
        match r {
            Ok(c) => hwb_at(input@, pos as int) == Some(c),
            Err(_) => hwb_at(input@, pos as int) is None,
        },
{
    let (end, hue) = parse_hue_or_none(input, pos)?;
    let (end, whiteness) = parse_component(input, skip_ws_from(input, end))?;
    let (end, blackness) = parse_component(input, skip_ws_from(input, end))?;
    let alpha = parse_alpha_and_close(input, skip_ws_from(input, end), false)?;
    Ok(ColorSyntax::Hwb { hue, whiteness, blackness, alpha })
}

/// The value of a byte known to be a hex digit.
fn hex_value(c: u8) -> (r: u8)
    requires
        spec_hex_value(c) is Ok,
    ensures
        r == spec_hex_value(c)->Ok_0,
        r < 16,
{
    match hex_digit(c) {
        Ok(v) => v,
        Err(_) => 0,
    }
}

/// The hex digits after `#`.
pub fn parse_hex(input: &[u8]) -> (r: Result<ColorSyntax, ()>)
    ensures
        match r {
            Ok(c) => hex_color(input@) == Some(c),
            Err(_) => hex_color(input@) is None,
        },
{
    let n = input.len();
    if n != 3 && n != 4 && n != 6 && n != 8 {
        return Err(());
    }
    let mut i: usize = 0;
    while i < n
        invariant
            n == input@.len(),
            i <= n,
            forall|j: int| 0 <= j < i ==> spec_hex_value(#[trigger] input@[j]) is Ok,
        decreases n - i,
    {
        if hex_digit(input[i]).is_err() {
            return Err(());
        }
        i = i + 1;
    }
    if n == 8 {
        Ok(
            ColorSyntax::Rgba8 {
                red: hex_value(input[0]) * 16 + hex_value(input[1]),
                green: hex_value(input[2]) * 16 + hex_value(input[3]),
                blue: hex_value(input[4]) * 16 + hex_value(input[5]),
                alpha: hex_value(input[6]) * 16 + hex_value(input[7]),
            },
        )
    } else if n == 6 {
        Ok(
            ColorSyntax::Rgba8 {
                red: hex_value(input[0]) * 16 + hex_value(input[1]),
                green: hex_value(input[2]) * 16 + hex_value(input[3]),
                blue: hex_value(input[4]) * 16 + hex_value(input[5]),
                alpha: 255,
            },
        )
    } else if n == 4 {
        Ok(
            ColorSyntax::Rgba8 {
                red: hex_value(input[0]) * 17,
                green: hex_value(input[1]) * 17,
                blue: hex_value(input[2]) * 17,
                alpha: hex_value(input[3]) * 17,
            },
        )
    } else {
        Ok(
            ColorSyntax::Rgba8 {
                red: hex_value(input[0]) * 17,
                green: hex_value(input[1]) * 17,
                blue: hex_value(input[2]) * 17,
                alpha: 255,
            },
        )
    }
}

/// The position of the first argument of the function `name(` that starts the
/// input.
fn function_arguments(input: &[u8], name: &[u8]) -> (r: Result<usize, ()>)
    requires
        spec_is_ident_start(name@),
    ensures
        r is Ok <==> function_len(input@, name@) is Some,
        r is Ok ==> r->Ok_0 as int == function_len(input@, name@)->Some_0,
        r is Ok ==> r->Ok_0 <= input@.len(),
{
    let rest = consume_function(input, name)?;
    Ok(input.len() - rest.len())
}

/// Parses a CSS color: `#` and hex digits, one of the functions `rgb()`,
/// `rgba()`, `hsl()`, `hsla()`, `hwb()`, or a named color. The whole input must
/// be the color: no whitespace may stand before or after it.
pub fn parse_css_color(input: &[u8]) -> (r: Result<ColorSyntax, ParseColorError>)
    ensures
        match r {
            Ok(c) => css_color(input@) == Some(c),
            Err(_) => css_color(input@) is None,
        },
{
    proof {
        reveal(css_color);
    }
    let parsed = if let Ok(digits) = consume_byte(input, 0x23) {
        parse_hex(digits)
    } else if let Ok(pos) = function_arguments(input, RGB_NAME.as_slice()) {
        parse_rgb(input, pos)
    } else if let Ok(pos) = function_arguments(input, RGBA_NAME.as_slice()) {
        parse_rgb(input, pos)
    } else if let Ok(pos) = function_arguments(input, HSL_NAME.as_slice()) {
        parse_hsl(input, pos)
    } else if let Ok(pos) = function_arguments(input, HSLA_NAME.as_slice()) {
        parse_hsl(input, pos)
    } else if let Ok(pos) = function_arguments(input, HWB_NAME.as_slice()) {
        parse_hwb(input, pos)
    } else {
        parse_named(input)
    };
    match parsed {
        Ok(color) => Ok(color),
        Err(_) => Err(ParseColorError),
    }
}

} // verus!
