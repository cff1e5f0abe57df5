//! Properties of the grammar as a whole, proved from its statement.
use crate::named::{lower_seq, named_color, named_from, NAMED_COUNT};
use crate::number::{byte_is, digits_end, number_end};
use crate::parser::{
    alpha_close_at, alpha_separator, all_hex, css_color, hex_color, hex_pair, hex_short, hsl_at, hue_at, legacy_channel_at,
    number_or_percentage_at, percentage_at, rgb_at, span, component_at, hue_or_none_at,
    keyword_at, HSLA_NAME, HSL_NAME, RGBA_NAME, RGB_NAME,
};
use crate::scan::{function_len, spec_hex_value, spec_is_digit, ws_end, NONE_NAME};
use crate::syntax::{ColorSyntax, Component, Hue};
use vstd::prelude::*;

verus! {

proof fn lemma_hex_input(s: Seq<u8>)
    requires
        byte_is(s, 0, 0x23),
    ensures
        css_color(s) == hex_color(s.skip(1)),
{
    reveal(css_color);
}

proof fn lemma_short_hex(r: u8, g: u8, b: u8)
    requires
        spec_hex_value(r) is Ok,
        spec_hex_value(g) is Ok,
        spec_hex_value(b) is Ok,
    ensures
        hex_color(seq![r, g, b]) is Some,
        hex_color(seq![r, g, b]) == hex_color(seq![r, r, g, g, b, b]),
{
    let t3 = seq![r, g, b];
    let t6 = seq![r, r, g, g, b, b];
    assert(all_hex(t3));
    assert(all_hex(t6));
    assert(hex_short(t3, 0) == hex_pair(t6, 0));
    assert(hex_short(t3, 1) == hex_pair(t6, 2));
    assert(hex_short(t3, 2) == hex_pair(t6, 4));
}

proof fn lemma_short_hex_alpha(r: u8, g: u8, b: u8, a: u8)
    requires
        spec_hex_value(r) is Ok,
        spec_hex_value(g) is Ok,
        spec_hex_value(b) is Ok,
        spec_hex_value(a) is Ok,
    ensures
        hex_color(seq![r, g, b, a]) is Some,
        hex_color(seq![r, g, b, a]) == hex_color(seq![r, r, g, g, b, b, a, a]),
{
    let t4 = seq![r, g, b, a];
    let t8 = seq![r, r, g, g, b, b, a, a];
    assert(all_hex(t4));
    assert(all_hex(t8));
    assert(hex_short(t4, 0) == hex_pair(t8, 0));
    assert(hex_short(t4, 1) == hex_pair(t8, 2));
    assert(hex_short(t4, 2) == hex_pair(t8, 4));
    assert(hex_short(t4, 3) == hex_pair(t8, 6));
}

/// A short hex color is the long one with each digit doubled: `#rgb` denotes
/// what `#rrggbb` does, and `#rgba` what `#rrggbbaa` does.
pub proof fn short_hex_doubles_digits(r: u8, g: u8, b: u8, a: u8)
    requires
        spec_hex_value(r) is Ok,
        spec_hex_value(g) is Ok,
        spec_hex_value(b) is Ok,
        spec_hex_value(a) is Ok,
    ensures
        css_color(seq![0x23u8, r, g, b]) is Some,
        css_color(seq![0x23u8, r, g, b]) == css_color(seq![0x23u8, r, r, g, g, b, b]),
        css_color(seq![0x23u8, r, g, b, a]) is Some,
        css_color(seq![0x23u8, r, g, b, a]) == css_color(seq![0x23u8, r, r, g, g, b, b, a, a]),
{
    let s3 = seq![0x23u8, r, g, b];
    let s6 = seq![0x23u8, r, r, g, g, b, b];
    let s4 = seq![0x23u8, r, g, b, a];
    let s8 = seq![0x23u8, r, r, g, g, b, b, a, a];
    assert(s3.skip(1) =~= seq![r, g, b]);
    assert(s6.skip(1) =~= seq![r, r, g, g, b, b]);
    assert(s4.skip(1) =~= seq![r, g, b, a]);
    assert(s8.skip(1) =~= seq![r, r, g, g, b, b, a, a]);
    lemma_hex_input(s3);
    lemma_hex_input(s6);
    lemma_hex_input(s4);
    lemma_hex_input(s8);
    lemma_short_hex(r, g, b);
    lemma_short_hex_alpha(r, g, b, a);
}

/// Named colors are looked up whatever the case of their letters.
pub proof fn named_lookup_ignores_case(s: Seq<u8>)
    ensures
        named_color(s) == named_color(lower_seq(s)),
{
    assert(lower_seq(lower_seq(s)) =~= lower_seq(s));
}

proof fn lemma_digit_run(s: Seq<u8>, p: int, k: int)
    requires
        0 <= p <= k <= s.len(),
        forall|i: int| p <= i < k ==> spec_is_digit(#[trigger] s[i]),
        !(k < s.len() && spec_is_digit(s[k])),
    ensures
        digits_end(s, p) == k,
    decreases k - p,
{
    if p < k {
        lemma_digit_run(s, p + 1, k);
    }
}

/// Digit runs of any length make one numeral: digits, then `e-`, then more
/// digits, however many of each there are.
pub proof fn long_digit_runs_are_numerals(s: Seq<u8>, p: int, k: int, q: int)
    requires
        0 <= p < k,
        k + 2 < q <= s.len(),
        forall|i: int| p <= i < k ==> spec_is_digit(#[trigger] s[i]),
        s[k] == 0x65,
        s[k + 1] == 0x2D,
        forall|i: int| k + 2 <= i < q ==> spec_is_digit(#[trigger] s[i]),
        !(q < s.len() && spec_is_digit(s[q])),
    ensures
        number_end(s, p) == Some(q),
{
    lemma_digit_run(s, p, k);
    lemma_digit_run(s, k + 2, q);
}

proof fn lemma_legacy_alpha(s: Seq<u8>, p: int)
    ensures
        alpha_close_at(s, p, true) != Some(Some(Component::Missing)),
{
    if byte_is(s, p, alpha_separator(true)) {
        let q = ws_end(s, p + 1);
        if let Some((e, a)) = number_or_percentage_at(s, q) {
            assert(a != Component::Missing);
        }
    }
}

proof fn lemma_rgb_legacy_uniform(s: Seq<u8>, p: int)
    ensures
        rgb_at(s, p) matches Some(ColorSyntax::Rgb { legacy: true, red, green, blue, alpha }) ==> {
            &&& (red is Number && green is Number && blue is Number) || (red is Percentage
                && green is Percentage && blue is Percentage)
            &&& alpha != Some(Component::Missing)
        },
{
    if let Some((e, red)) = number_or_percentage_at(s, p) {
        let q = ws_end(s, e);
        if byte_is(s, q, 0x2C) {
            let percent = red is Percentage;
            if let Some((e1, green)) = legacy_channel_at(s, ws_end(s, q + 1), percent) {
                let q1 = ws_end(s, e1);
                if let Some((e2, blue)) = legacy_channel_at(s, ws_end(s, q1 + 1), percent) {
                    lemma_legacy_alpha(s, ws_end(s, e2));
                }
            }
        }
    }
}

proof fn lemma_hsl_legacy_uniform(s: Seq<u8>, p: int)
    ensures
        hsl_at(s, p) matches Some(ColorSyntax::Hsl { legacy: true, hue, saturation, lightness, alpha }) ==> {
            &&& hue is Angle
            &&& saturation is Percentage
            &&& lightness is Percentage
            &&& alpha != Some(Component::Missing)
        },
{
    if let Some((e, hue)) = hue_at(s, p) {
        let q = ws_end(s, e);
        if byte_is(s, q, 0x2C) {
            if let Some((e1, saturation)) = percentage_at(s, ws_end(s, q + 1)) {
                let q1 = ws_end(s, e1);
                if let Some((e2, lightness)) = percentage_at(s, ws_end(s, q1 + 1)) {
                    lemma_legacy_alpha(s, ws_end(s, e2));
                }
            }
        }
    }
}

proof fn lemma_named_is_rgba8(name: Seq<u8>, i: int)
    ensures
        named_from(name, i) matches Some(c) ==> c is Rgba8,
    decreases NAMED_COUNT - i,
{
    if 0 <= i < NAMED_COUNT {
        lemma_named_is_rgba8(name, i + 1);
    }
}

/// The legacy comma-separated syntax takes no `none` anywhere, and its three
/// `rgb()` channels are all numbers or all percentages; its `hsl()` saturation
/// and lightness are percentages.
pub proof fn legacy_syntax_is_uniform(s: Seq<u8>)
    ensures
        css_color(s) matches Some(ColorSyntax::Rgb { legacy: true, red, green, blue, alpha }) ==> {
            &&& (red is Number && green is Number && blue is Number) || (red is Percentage
                && green is Percentage && blue is Percentage)
            &&& alpha != Some(Component::Missing)
        },
        css_color(s) matches Some(ColorSyntax::Hsl { legacy: true, hue, saturation, lightness, alpha }) ==> {
            &&& hue is Angle
            &&& saturation is Percentage
            &&& lightness is Percentage
            &&& alpha != Some(Component::Missing)
        },
{
    reveal(css_color);
    lemma_named_is_rgba8(lower_seq(s), 0);
    if let Some(k) = function_len(s, RGB_NAME@) {
        lemma_rgb_legacy_uniform(s, k as int);
    }
    if let Some(k) = function_len(s, RGBA_NAME@) {
        lemma_rgb_legacy_uniform(s, k as int);
    }
    if let Some(k) = function_len(s, HSL_NAME@) {
        lemma_hsl_legacy_uniform(s, k as int);
    }
    if let Some(k) = function_len(s, HSLA_NAME@) {
        lemma_hsl_legacy_uniform(s, k as int);
    }
}

/// The lower-case hex digit of a value under 16.
pub open spec fn hex_digit_byte(v: u8) -> u8 {
    if v < 10 {
        (0x30 + v) as u8
    } else {
        (0x61 + v - 10) as u8
    }
}

/// The decimal digits of `n`, without leading zeros.
pub open spec fn decimal_digits(n: nat) -> Seq<u8>
    decreases n,
{
    if n < 10 {
        seq![(0x30 + n) as u8]
    } else {
        decimal_digits(n / 10).push((0x30 + n % 10) as u8)
    }
}

/// `#` and the six hex digits of three bytes.
pub open spec fn hex6_text(r: u8, g: u8, b: u8) -> Seq<u8> {
    seq![
        0x23u8,
        hex_digit_byte(r / 16),
        hex_digit_byte(r % 16),
        hex_digit_byte(g / 16),
        hex_digit_byte(g % 16),
        hex_digit_byte(b / 16),
        hex_digit_byte(b % 16),
    ]
}

/// `rgb(R G B)` with the three bytes in decimal.
pub open spec fn rgb_decimal_text(r: u8, g: u8, b: u8) -> Seq<u8> {
    RGB_NAME@ + seq![0x28u8] + decimal_digits(r as nat) + seq![0x20u8] + decimal_digits(g as nat)
        + seq![0x20u8] + decimal_digits(b as nat) + seq![0x29u8]
}

proof fn lemma_hex_digit_byte(v: u8)
    requires
        v < 16,
    ensures
        spec_hex_value(hex_digit_byte(v)) == Ok::<u8, ()>(v),
{
}

proof fn lemma_decimal_digits(n: nat)
    ensures
        1 <= decimal_digits(n).len(),
        n < 10 ==> decimal_digits(n).len() == 1,
        n < 100 ==> decimal_digits(n).len() <= 2,
        n < 1000 ==> decimal_digits(n).len() <= 3,
        forall|i: int| 0 <= i < decimal_digits(n).len() ==> spec_is_digit(#[trigger] decimal_digits(n)[i]),
    decreases n,
{
    if n >= 10 {
        lemma_decimal_digits(n / 10);
        let prefix = decimal_digits(n / 10);
        assert forall|i: int| 0 <= i < decimal_digits(n).len() implies spec_is_digit(
            #[trigger] decimal_digits(n)[i],
        ) by {
            if i < prefix.len() {
                assert(decimal_digits(n)[i] == prefix[i]);
            }
        }
    }
}

/// A run of digits from `p` to `e`, followed by none of `.`, `e`, `E`, `%` or
/// another digit, is a number component.
proof fn lemma_digit_component(s: Seq<u8>, p: int, e: int)
    requires
        0 <= p < e < s.len(),
        forall|i: int| p <= i < e ==> spec_is_digit(#[trigger] s[i]),
        !spec_is_digit(s[e]),
        s[e] != 0x2E && s[e] != 0x65 && s[e] != 0x45 && s[e] != 0x25,
    ensures
        number_or_percentage_at(s, p) == Some((e, Component::Number(span(p, e)))),
        component_at(s, p) == Some((e, Component::Number(span(p, e)))),
{
    lemma_digit_run(s, p, e);
}

proof fn lemma_hex6(r: u8, g: u8, b: u8)
    ensures
        css_color(hex6_text(r, g, b)) == Some(
            ColorSyntax::Rgba8 { red: r, green: g, blue: b, alpha: 255 },
        ),
{
    let h = hex6_text(r, g, b);
    lemma_hex_digit_byte(r / 16);
    lemma_hex_digit_byte(r % 16);
    lemma_hex_digit_byte(g / 16);
    lemma_hex_digit_byte(g % 16);
    lemma_hex_digit_byte(b / 16);
    lemma_hex_digit_byte(b % 16);
    let t = h.skip(1);
    assert(t =~= seq![
        hex_digit_byte(r / 16),
        hex_digit_byte(r % 16),
        hex_digit_byte(g / 16),
        hex_digit_byte(g % 16),
        hex_digit_byte(b / 16),
        hex_digit_byte(b % 16),
    ]);
    assert(all_hex(t));
    assert(hex_pair(t, 0) == r);
    assert(hex_pair(t, 2) == g);
    assert(hex_pair(t, 4) == b);
    lemma_hex_input(h);
}

/// Where the bytes of `rgb(R G B)` stand.
proof fn lemma_rgb_decimal_layout(r: u8, g: u8, b: u8)
    ensures
        ({
            let s = rgb_decimal_text(r, g, b);
            let a = decimal_digits(r as nat).len() as int;
            let c = decimal_digits(g as nat).len() as int;
            let d = decimal_digits(b as nat).len() as int;
            &&& 1 <= a <= 3 && 1 <= c <= 3 && 1 <= d <= 3
            &&& s.len() == 7 + a + c + d
            &&& s.take(3) == RGB_NAME@
            &&& s[3] == 0x28
            &&& forall|i: int| 4 <= i < 4 + a ==> spec_is_digit(#[trigger] s[i])
            &&& s[4 + a] == 0x20
            &&& forall|i: int| 5 + a <= i < 5 + a + c ==> spec_is_digit(#[trigger] s[i])
            &&& s[5 + a + c] == 0x20
            &&& forall|i: int| 6 + a + c <= i < 6 + a + c + d ==> spec_is_digit(#[trigger] s[i])
            &&& s[6 + a + c + d] == 0x29
        }),
{
    let dr = decimal_digits(r as nat);
    let dg = decimal_digits(g as nat);
    let db = decimal_digits(b as nat);
    lemma_decimal_digits(r as nat);
    lemma_decimal_digits(g as nat);
    lemma_decimal_digits(b as nat);
    let a = dr.len() as int;
    let c = dg.len() as int;
    let d = db.len() as int;
    let s = rgb_decimal_text(r, g, b);
    assert(s.take(3) =~= RGB_NAME@);
    assert forall|i: int| 4 <= i < 4 + a implies spec_is_digit(#[trigger] s[i]) by {
        assert(s[i] == dr[i - 4]);
    }
    assert forall|i: int| 5 + a <= i < 5 + a + c implies spec_is_digit(#[trigger] s[i]) by {
        assert(s[i] == dg[i - (5 + a)]);
    }
    assert forall|i: int| 6 + a + c <= i < 6 + a + c + d implies spec_is_digit(
        #[trigger] s[i],
    ) by {
        assert(s[i] == db[i - (6 + a + c)]);
    }
}

proof fn lemma_rgb_decimal(r: u8, g: u8, b: u8)
    ensures
        ({
            let a = decimal_digits(r as nat).len() as int;
            let c = decimal_digits(g as nat).len() as int;
            let d = decimal_digits(b as nat).len() as int;
            css_color(rgb_decimal_text(r, g, b)) == Some(
                ColorSyntax::Rgb {
                    legacy: false,
                    red: Component::Number(span(4, 4 + a)),
                    green: Component::Number(span(5 + a, 5 + a + c)),
                    blue: Component::Number(span(6 + a + c, 6 + a + c + d)),
                    alpha: None,
                },
            )
        }),
{
    lemma_rgb_decimal_layout(r, g, b);
    let a = decimal_digits(r as nat).len() as int;
    let c = decimal_digits(g as nat).len() as int;
    let d = decimal_digits(b as nat).len() as int;
    let s = rgb_decimal_text(r, g, b);
    assert(spec_is_digit(s[4]));
    assert(spec_is_digit(s[5 + a]));
    assert(spec_is_digit(s[6 + a + c]));
    assert(ws_end(s, 4) == 4);
    assert(function_len(s, RGB_NAME@) == Some(4nat));
    lemma_digit_component(s, 4, 4 + a);
    assert(ws_end(s, 5 + a) == 5 + a);
    assert(ws_end(s, 4 + a) == 5 + a);
    lemma_digit_component(s, 5 + a, 5 + a + c);
    assert(ws_end(s, 6 + a + c) == 6 + a + c);
    assert(ws_end(s, 5 + a + c) == 6 + a + c);
    lemma_digit_component(s, 6 + a + c, 6 + a + c + d);
    assert(ws_end(s, 6 + a + c + d) == 6 + a + c + d);
    assert(alpha_close_at(s, 6 + a + c + d, false) == Some(None::<Component>));
    assert(rgb_at(s, 4) == Some(
        ColorSyntax::Rgb {
            legacy: false,
            red: Component::Number(span(4, 4 + a)),
            green: Component::Number(span(5 + a, 5 + a + c)),
            blue: Component::Number(span(6 + a + c, 6 + a + c + d)),
            alpha: None,
        },
    ));
    assert(!byte_is(s, 0, 0x23));
    reveal(css_color);
}

/// `#RRGGBB` and `rgb(R G B)`, with the same three bytes in hex and in
/// decimal, name the same channels: the first gives the bytes themselves,
/// opaque; the second gives three numbers whose numerals are exactly the
/// decimal digits of those bytes, with no alpha.
pub proof fn hex_and_decimal_rgb_agree(r: u8, g: u8, b: u8)
    ensures
        css_color(hex6_text(r, g, b)) == Some(
            ColorSyntax::Rgba8 { red: r, green: g, blue: b, alpha: 255 },
        ),
        ({
            let a = decimal_digits(r as nat).len() as int;
            let c = decimal_digits(g as nat).len() as int;
            let d = decimal_digits(b as nat).len() as int;
            css_color(rgb_decimal_text(r, g, b)) == Some(
                ColorSyntax::Rgb {
                    legacy: false,
                    red: Component::Number(span(4, 4 + a)),
                    green: Component::Number(span(5 + a, 5 + a + c)),
                    blue: Component::Number(span(6 + a + c, 6 + a + c + d)),
                    alpha: None,
                },
            )
        }),
{
    lemma_hex6(r, g, b);
    lemma_rgb_decimal(r, g, b);
}

/// In the space-separated syntax every component may be `none`, and a comma
/// can neither begin a component nor stand where the alpha or the closing `)`
/// is due.
pub proof fn modern_components(s: Seq<u8>, p: int)
    requires
        0 <= p <= s.len(),
    ensures
        keyword_at(s, p, NONE_NAME@) ==> component_at(s, p) == Some((p + 4, Component::Missing)),
        keyword_at(s, p, NONE_NAME@) ==> hue_or_none_at(s, p) == Some((p + 4, Hue::Missing)),
        byte_is(s, p, 0x2C) ==> component_at(s, p) is None,
        byte_is(s, p, 0x2C) ==> hue_or_none_at(s, p) is None,
        byte_is(s, p, 0x2C) ==> alpha_close_at(s, p, false) is None,
{
    if keyword_at(s, p, NONE_NAME@) {
        assert(s.skip(p).take(4)[0] == s.skip(p)[0]);
        assert(number_end(s, p) is None);
    }
}

} // verus!
