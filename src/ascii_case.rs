//! The grammar ignores ASCII case: function names, units, `none`, the
//! exponent marker, hex digits and color names all read the same in upper and
//! lower case.
use crate::named::{lower_seq, named_color};
use crate::number::{byte_is, digits_end, exponent_end, number_end, sign_end};
use crate::parser::{
    all_hex, alpha_close_at, alpha_value_at, component_at, css_color, hex_at, hex_color, hsl_at,
    hsl_legacy_at, hsl_modern_at, hue_at, hue_or_none_at, hwb_at, keyword_at, legacy_channel_at,
    number_at, number_or_percentage_at, percentage_at, rgb_at, rgb_legacy_at, rgb_modern_at,
};
use crate::scan::{
    eq_ignore_case, function_len, lower_byte, name_len, spec_hex_value, spec_is_digit,
    spec_is_ident_start, spec_is_name, spec_is_name_start, spec_is_whitespace, ws_end,
};
use crate::syntax::{Component, Hue};
use vstd::prelude::*;

verus! {

pub open spec fn is_letter(b: u8) -> bool {
    (0x41 <= b <= 0x5A) || (0x61 <= b <= 0x7A)
}

proof fn lemma_lower_byte(c: u8)
    ensures
        lower_byte(lower_byte(c)) == lower_byte(c),
        spec_is_whitespace(lower_byte(c)) == spec_is_whitespace(c),
        spec_is_digit(lower_byte(c)) == spec_is_digit(c),
        spec_is_name_start(lower_byte(c)) == spec_is_name_start(c),
        spec_is_name(lower_byte(c)) == spec_is_name(c),
        spec_hex_value(lower_byte(c)) == spec_hex_value(c),
        (lower_byte(c) == 0x65) == (c == 0x65 || c == 0x45),
        lower_byte(c) != 0x45,
        forall|b: u8| !is_letter(b) ==> ((lower_byte(c) == b) == (c == b)),
{
}

proof fn lemma_lower_seq_at(s: Seq<u8>, i: int)
    requires
        0 <= i < s.len(),
    ensures
        lower_seq(s).len() == s.len(),
        lower_seq(s)[i] == lower_byte(s[i]),
{
}

proof fn lemma_byte_is_lower(s: Seq<u8>, p: int, b: u8)
    requires
        !is_letter(b),
    ensures
        byte_is(lower_seq(s), p, b) == byte_is(s, p, b),
{
    if 0 <= p < s.len() {
        lemma_lower_seq_at(s, p);
        lemma_lower_byte(s[p]);
    }
}

proof fn lemma_ws_end_lower(s: Seq<u8>, p: int)
    ensures
        ws_end(lower_seq(s), p) == ws_end(s, p),
    decreases s.len() - p,
{
    if 0 <= p < s.len() {
        lemma_lower_seq_at(s, p);
        lemma_lower_byte(s[p]);
        lemma_ws_end_lower(s, p + 1);
    }
}

proof fn lemma_digits_end_lower(s: Seq<u8>, p: int)
    ensures
        digits_end(lower_seq(s), p) == digits_end(s, p),
    decreases s.len() - p,
{
    if 0 <= p < s.len() {
        lemma_lower_seq_at(s, p);
        lemma_lower_byte(s[p]);
        lemma_digits_end_lower(s, p + 1);
    }
}

proof fn lemma_exponent_marker_lower(s: Seq<u8>, p: int)
    ensures
        (byte_is(lower_seq(s), p, 0x65) || byte_is(lower_seq(s), p, 0x45)) == (byte_is(s, p, 0x65)
            || byte_is(s, p, 0x45)),
{
    if 0 <= p < s.len() {
        lemma_lower_seq_at(s, p);
        lemma_lower_byte(s[p]);
    }
}

proof fn lemma_number_end_lower(s: Seq<u8>, p: int)
    ensures
        number_end(lower_seq(s), p) == number_end(s, p),
{
    let l = lower_seq(s);
    lemma_byte_is_lower(s, p, 0x2B);
    lemma_byte_is_lower(s, p, 0x2D);
    let a = sign_end(s, p);
    lemma_digits_end_lower(s, a);
    lemma_byte_is_lower(s, a, 0x2E);
    let b = digits_end(s, a);
    lemma_byte_is_lower(s, b, 0x2E);
    lemma_digits_end_lower(s, b + 1);
    let c = digits_end(s, b + 1);
    lemma_exponent_marker_lower(s, c);
    lemma_exponent_marker_lower(s, b);
    lemma_byte_is_lower(s, c + 1, 0x2B);
    lemma_byte_is_lower(s, c + 1, 0x2D);
    lemma_byte_is_lower(s, b + 1, 0x2B);
    lemma_byte_is_lower(s, b + 1, 0x2D);
    lemma_digits_end_lower(s, sign_end(s, c + 1));
    lemma_digits_end_lower(s, sign_end(s, b + 1));
    assert(exponent_end(l, c) == exponent_end(s, c));
    assert(exponent_end(l, b) == exponent_end(s, b));
}

proof fn lemma_skip_lower(s: Seq<u8>, p: int)
    requires
        0 <= p <= s.len(),
    ensures
        lower_seq(s).skip(p) == lower_seq(s.skip(p)),
{
    assert(lower_seq(s).skip(p) =~= lower_seq(s.skip(p)));
}

proof fn lemma_name_len_lower(t: Seq<u8>, name: Seq<u8>)
    ensures
        name_len(lower_seq(t), name) == name_len(t, name),
{
    let n = name.len();
    let l = lower_seq(t);
    if t.len() >= n {
        let a = l.take(n as int);
        let b = t.take(n as int);
        assert forall|i: int| 0 <= i < n implies lower_byte(#[trigger] a[i]) == lower_byte(b[i]) by {
            lemma_lower_seq_at(t, i);
            lemma_lower_byte(t[i]);
        }
        if eq_ignore_case(b, name) {
            assert forall|i: int| 0 <= i < a.len() implies lower_byte(#[trigger] a[i])
                == lower_byte(name[i]) by {
                assert(lower_byte(a[i]) == lower_byte(b[i]));
            }
        }
        if eq_ignore_case(a, name) {
            assert forall|i: int| 0 <= i < b.len() implies lower_byte(#[trigger] b[i])
                == lower_byte(name[i]) by {
                assert(lower_byte(a[i]) == lower_byte(b[i]));
            }
        }
        if t.len() > n {
            lemma_lower_byte(t[n as int]);
        }
    }
}

proof fn lemma_keyword_lower(s: Seq<u8>, p: int, name: Seq<u8>)
    requires
        0 <= p <= s.len(),
    ensures
        keyword_at(lower_seq(s), p, name) == keyword_at(s, p, name),
{
    lemma_skip_lower(s, p);
    lemma_name_len_lower(s.skip(p), name);
}

proof fn lemma_ident_start_lower(s: Seq<u8>, p: int)
    requires
        0 <= p <= s.len(),
    ensures
        spec_is_ident_start(lower_seq(s).skip(p)) == spec_is_ident_start(s.skip(p)),
{
    lemma_skip_lower(s, p);
    let t = s.skip(p);
    if t.len() > 0 {
        lemma_lower_seq_at(t, 0);
        lemma_lower_byte(t[0]);
    }
    if t.len() > 1 {
        lemma_lower_seq_at(t, 1);
        lemma_lower_byte(t[1]);
    }
}

/// Everything the productions read of the input, read the same from its
/// lower-case form.
proof fn lemma_tokens_lower(s: Seq<u8>)
    ensures
        lower_seq(s).len() == s.len(),
        forall|p: int| #[trigger] ws_end(lower_seq(s), p) == ws_end(s, p),
        forall|p: int| #[trigger] number_end(lower_seq(s), p) == number_end(s, p),
        forall|p: int, b: u8| !is_letter(b) ==> #[trigger] byte_is(lower_seq(s), p, b) == byte_is(s, p, b),
        forall|p: int, name: Seq<u8>|
            0 <= p <= s.len() ==> #[trigger] keyword_at(lower_seq(s), p, name) == keyword_at(s, p, name),
        forall|p: int|
            0 <= p <= s.len() ==> #[trigger] spec_is_ident_start(lower_seq(s).skip(p))
                == spec_is_ident_start(s.skip(p)),
{
    assert forall|p: int| #[trigger] ws_end(lower_seq(s), p) == ws_end(s, p) by {
        lemma_ws_end_lower(s, p);
    }
    assert forall|p: int| #[trigger] number_end(lower_seq(s), p) == number_end(s, p) by {
        lemma_number_end_lower(s, p);
    }
    assert forall|p: int, b: u8| !is_letter(b) implies #[trigger] byte_is(lower_seq(s), p, b)
        == byte_is(s, p, b) by {
        lemma_byte_is_lower(s, p, b);
    }
    assert forall|p: int, name: Seq<u8>| 0 <= p <= s.len() implies #[trigger] keyword_at(
        lower_seq(s),
        p,
        name,
    ) == keyword_at(s, p, name) by {
        lemma_keyword_lower(s, p, name);
    }
    assert forall|p: int| 0 <= p <= s.len() implies #[trigger] spec_is_ident_start(
        lower_seq(s).skip(p),
    ) == spec_is_ident_start(s.skip(p)) by {
        lemma_ident_start_lower(s, p);
    }
}

proof fn lemma_bounds(s: Seq<u8>)
    ensures
        forall|p: int| 0 <= p <= s.len() ==> p <= #[trigger] ws_end(s, p) <= s.len(),
        forall|p: int|
            0 <= p <= s.len() ==> (#[trigger] number_end(s, p) matches Some(e) ==> p < e <= s.len()),
        forall|p: int, name: Seq<u8>|
            0 <= p <= s.len() ==> (#[trigger] keyword_at(s, p, name) ==> p + name.len() <= s.len()),
{
    assert forall|p: int| 0 <= p <= s.len() implies p <= #[trigger] ws_end(s, p) <= s.len() by {
        crate::scan::lemma_ws_end_bound(s, p);
    }
    assert forall|p: int| 0 <= p <= s.len() implies (#[trigger] number_end(s, p) matches Some(e)
        ==> p < e <= s.len()) by {
        crate::number::lemma_number_end_bound(s, p);
    }
}

proof fn lemma_number_pieces_lower(s: Seq<u8>, p: int)
    requires
        0 <= p <= s.len(),
    ensures
        number_at(lower_seq(s), p) == number_at(s, p),
        percentage_at(lower_seq(s), p) == percentage_at(s, p),
        number_or_percentage_at(lower_seq(s), p) == number_or_percentage_at(s, p),
        component_at(lower_seq(s), p) == component_at(s, p),
        legacy_channel_at(lower_seq(s), p, true) == legacy_channel_at(s, p, true),
        legacy_channel_at(lower_seq(s), p, false) == legacy_channel_at(s, p, false),
{
    lemma_tokens_lower(s);
    lemma_bounds(s);
    if let Some(e) = number_end(s, p) {
        assert(byte_is(lower_seq(s), e, 0x25) == byte_is(s, e, 0x25));
    }
    assert(keyword_at(lower_seq(s), p, crate::scan::NONE_NAME@) == keyword_at(
        s,
        p,
        crate::scan::NONE_NAME@,
    ));
}

proof fn lemma_hue_lower(s: Seq<u8>, p: int)
    requires
        0 <= p <= s.len(),
    ensures
        hue_at(lower_seq(s), p) == hue_at(s, p),
        hue_or_none_at(lower_seq(s), p) == hue_or_none_at(s, p),
{
    lemma_tokens_lower(s);
    lemma_bounds(s);
    let l = lower_seq(s);
    if let Some(e) = number_end(s, p) {
        assert(spec_is_ident_start(l.skip(e)) == spec_is_ident_start(s.skip(e)));
        assert(keyword_at(l, e, crate::parser::DEG_NAME@) == keyword_at(s, e, crate::parser::DEG_NAME@));
        assert(keyword_at(l, e, crate::parser::GRAD_NAME@) == keyword_at(s, e, crate::parser::GRAD_NAME@));
        assert(keyword_at(l, e, crate::parser::RAD_NAME@) == keyword_at(s, e, crate::parser::RAD_NAME@));
        assert(keyword_at(l, e, crate::parser::TURN_NAME@) == keyword_at(s, e, crate::parser::TURN_NAME@));
    }
    assert(keyword_at(l, p, crate::scan::NONE_NAME@) == keyword_at(s, p, crate::scan::NONE_NAME@));
}

proof fn lemma_alpha_lower(s: Seq<u8>, p: int, legacy: bool)
    requires
        0 <= p <= s.len(),
    ensures
        alpha_value_at(lower_seq(s), p, legacy) == alpha_value_at(s, p, legacy),
        alpha_close_at(lower_seq(s), p, legacy) == alpha_close_at(s, p, legacy),
{
    lemma_tokens_lower(s);
    lemma_bounds(s);
    let l = lower_seq(s);
    lemma_number_pieces_lower(s, p);
    assert(keyword_at(l, p, crate::scan::NONE_NAME@) == keyword_at(s, p, crate::scan::NONE_NAME@));
    let sep = crate::parser::alpha_separator(legacy);
    assert(byte_is(l, p, sep) == byte_is(s, p, sep));
    if byte_is(s, p, sep) {
        let q = ws_end(s, p + 1);
        lemma_number_pieces_lower(s, q);
        assert(keyword_at(l, q, crate::scan::NONE_NAME@) == keyword_at(s, q, crate::scan::NONE_NAME@));
        if let Some((e, a)) = alpha_value_at(s, q, legacy) {
            assert(byte_is(l, e, 0x29) == byte_is(s, e, 0x29));
        }
    }
    assert(byte_is(l, p, 0x29) == byte_is(s, p, 0x29));
}

proof fn lemma_all_pieces_lower(s: Seq<u8>)
    ensures
        forall|p: int|
            0 <= p <= s.len() ==> #[trigger] number_or_percentage_at(lower_seq(s), p)
                == number_or_percentage_at(s, p),
        forall|p: int|
            0 <= p <= s.len() ==> #[trigger] percentage_at(lower_seq(s), p) == percentage_at(s, p),
        forall|p: int|
            0 <= p <= s.len() ==> #[trigger] component_at(lower_seq(s), p) == component_at(s, p),
        forall|p: int, percent: bool|
            0 <= p <= s.len() ==> #[trigger] legacy_channel_at(lower_seq(s), p, percent)
                == legacy_channel_at(s, p, percent),
        forall|p: int| 0 <= p <= s.len() ==> #[trigger] hue_at(lower_seq(s), p) == hue_at(s, p),
        forall|p: int|
            0 <= p <= s.len() ==> #[trigger] hue_or_none_at(lower_seq(s), p) == hue_or_none_at(s, p),
        forall|p: int, legacy: bool|
            0 <= p <= s.len() ==> #[trigger] alpha_close_at(lower_seq(s), p, legacy)
                == alpha_close_at(s, p, legacy),
{
    assert forall|p: int| 0 <= p <= s.len() implies #[trigger] number_or_percentage_at(
        lower_seq(s),
        p,
    ) == number_or_percentage_at(s, p) by {
        lemma_number_pieces_lower(s, p);
    }
    assert forall|p: int| 0 <= p <= s.len() implies #[trigger] percentage_at(lower_seq(s), p)
        == percentage_at(s, p) by {
        lemma_number_pieces_lower(s, p);
    }
    assert forall|p: int| 0 <= p <= s.len() implies #[trigger] component_at(lower_seq(s), p)
        == component_at(s, p) by {
        lemma_number_pieces_lower(s, p);
    }
    assert forall|p: int, percent: bool| 0 <= p <= s.len() implies #[trigger] legacy_channel_at(
        lower_seq(s),
        p,
        percent,
    ) == legacy_channel_at(s, p, percent) by {
        lemma_number_pieces_lower(s, p);
    }
    assert forall|p: int| 0 <= p <= s.len() implies #[trigger] hue_at(lower_seq(s), p) == hue_at(
        s,
        p,
    ) by {
        lemma_hue_lower(s, p);
    }
    assert forall|p: int| 0 <= p <= s.len() implies #[trigger] hue_or_none_at(lower_seq(s), p)
        == hue_or_none_at(s, p) by {
        lemma_hue_lower(s, p);
    }
    assert forall|p: int, legacy: bool| 0 <= p <= s.len() implies #[trigger] alpha_close_at(
        lower_seq(s),
        p,
        legacy,
    ) == alpha_close_at(s, p, legacy) by {
        lemma_alpha_lower(s, p, legacy);
    }
}

proof fn lemma_rgb_lower(s: Seq<u8>, p: int)
    requires
        0 <= p <= s.len(),
    ensures
        rgb_at(lower_seq(s), p) == rgb_at(s, p),
{
    lemma_tokens_lower(s);
    lemma_bounds(s);
    lemma_all_pieces_lower(s);
    let l = lower_seq(s);
    assert forall|q: int, red: Component| 0 <= q <= s.len() implies #[trigger] rgb_modern_at(
        l,
        q,
        red,
    ) == rgb_modern_at(s, q, red) by {
        if let Some((e1, green)) = component_at(s, q) {
            if let Some((e2, blue)) = component_at(s, ws_end(s, e1)) {
            }
        }
    }
    assert forall|q: int, red: Component| 0 <= q <= s.len() implies #[trigger] rgb_legacy_at(
        l,
        q,
        red,
    ) == rgb_legacy_at(s, q, red) by {
        let percent = red is Percentage;
        if let Some((e1, green)) = legacy_channel_at(s, q, percent) {
            let q1 = ws_end(s, e1);
            assert(byte_is(l, q1, 0x2C) == byte_is(s, q1, 0x2C));
            if byte_is(s, q1, 0x2C) {
                if let Some((e2, blue)) = legacy_channel_at(s, ws_end(s, q1 + 1), percent) {
                }
            }
        }
    }
    if let Some((e, red)) = number_or_percentage_at(s, p) {
        let q = ws_end(s, e);
        assert(byte_is(l, q, 0x2C) == byte_is(s, q, 0x2C));
    }
    assert(keyword_at(l, p, crate::scan::NONE_NAME@) == keyword_at(s, p, crate::scan::NONE_NAME@));
}

proof fn lemma_hsl_lower(s: Seq<u8>, p: int)
    requires
        0 <= p <= s.len(),
    ensures
        hsl_at(lower_seq(s), p) == hsl_at(s, p),
{
    lemma_tokens_lower(s);
    lemma_bounds(s);
    lemma_all_pieces_lower(s);
    let l = lower_seq(s);
    assert forall|q: int, hue: Hue| 0 <= q <= s.len() implies #[trigger] hsl_modern_at(l, q, hue)
        == hsl_modern_at(s, q, hue) by {
        if let Some((e1, saturation)) = component_at(s, q) {
            if let Some((e2, lightness)) = component_at(s, ws_end(s, e1)) {
            }
        }
    }
    assert forall|q: int, hue: Hue| 0 <= q <= s.len() implies #[trigger] hsl_legacy_at(l, q, hue)
        == hsl_legacy_at(s, q, hue) by {
        if let Some((e1, saturation)) = percentage_at(s, q) {
            let q1 = ws_end(s, e1);
            assert(byte_is(l, q1, 0x2C) == byte_is(s, q1, 0x2C));
            if byte_is(s, q1, 0x2C) {
                if let Some((e2, lightness)) = percentage_at(s, ws_end(s, q1 + 1)) {
                }
            }
        }
    }
    if let Some((e, hue)) = hue_at(s, p) {
        let q = ws_end(s, e);
        assert(byte_is(l, q, 0x2C) == byte_is(s, q, 0x2C));
    }
    assert(keyword_at(l, p, crate::scan::NONE_NAME@) == keyword_at(s, p, crate::scan::NONE_NAME@));
}

proof fn lemma_hwb_lower(s: Seq<u8>, p: int)
    requires
        0 <= p <= s.len(),
    ensures
        hwb_at(lower_seq(s), p) == hwb_at(s, p),
{
    lemma_tokens_lower(s);
    lemma_bounds(s);
    lemma_all_pieces_lower(s);
    if let Some((e0, hue)) = hue_or_none_at(s, p) {
        if let Some((e1, whiteness)) = component_at(s, ws_end(s, e0)) {
            if let Some((e2, blackness)) = component_at(s, ws_end(s, e1)) {
            }
        }
    }
}

proof fn lemma_hex_lower(t: Seq<u8>)
    ensures
        hex_color(lower_seq(t)) == hex_color(t),
{
    let l = lower_seq(t);
    assert forall|i: int| 0 <= i < t.len() implies #[trigger] spec_hex_value(l[i]) == spec_hex_value(
        t[i],
    ) by {
        lemma_lower_byte(t[i]);
    }
    if all_hex(t) {
        assert forall|i: int| 0 <= i < l.len() implies spec_hex_value(#[trigger] l[i]) is Ok by {
            assert(spec_hex_value(l[i]) == spec_hex_value(t[i]));
        }
    }
    if all_hex(l) {
        assert forall|i: int| 0 <= i < t.len() implies spec_hex_value(#[trigger] t[i]) is Ok by {
            assert(spec_hex_value(l[i]) == spec_hex_value(t[i]));
        }
    }
    assert forall|i: int| 0 <= i < t.len() implies #[trigger] hex_at(l, i) == hex_at(t, i) by {
        lemma_lower_byte(t[i]);
    }
}

proof fn lemma_function_len_lower(s: Seq<u8>, name: Seq<u8>)
    ensures
        function_len(lower_seq(s), name) == function_len(s, name),
{
    lemma_tokens_lower(s);
    let n = name.len();
    lemma_skip_lower(s, 0);
    assert(s.skip(0) =~= s);
    assert(lower_seq(s).skip(0) =~= lower_seq(s));
    lemma_name_len_lower(s, name);
    if s.len() >= n + 1 {
        lemma_lower_byte(s[n as int]);
        assert(lower_seq(s).take(n as int) =~= lower_seq(s.take(n as int)));
        assert(eq_ignore_case(lower_seq(s).take(n as int), name) == eq_ignore_case(
            s.take(n as int),
            name,
        )) by {
            lemma_name_len_lower(s.take(n as int), name);
            assert(s.take(n as int).take(n as int) =~= s.take(n as int));
            assert(lower_seq(s.take(n as int)).take(n as int) =~= lower_seq(s.take(n as int)));
        }
    }
}

/// The grammar ignores ASCII case: an input and its lower-case form denote the
/// same color, or both fail.
pub proof fn parse_ignores_ascii_case(s: Seq<u8>)
    ensures
        css_color(lower_seq(s)) == css_color(s),
{
    reveal(css_color);
    let l = lower_seq(s);
    lemma_tokens_lower(s);
    lemma_bounds(s);
    lemma_byte_is_lower(s, 0, 0x23);
    if s.len() > 0 {
        lemma_skip_lower(s, 1);
        lemma_hex_lower(s.skip(1));
    }
    lemma_function_len_lower(s, crate::parser::RGB_NAME@);
    lemma_function_len_lower(s, crate::parser::RGBA_NAME@);
    lemma_function_len_lower(s, crate::parser::HSL_NAME@);
    lemma_function_len_lower(s, crate::parser::HSLA_NAME@);
    lemma_function_len_lower(s, crate::parser::HWB_NAME@);
    if let Some(k) = function_len(s, crate::parser::RGB_NAME@) {
        lemma_rgb_lower(s, k as int);
    }
    if let Some(k) = function_len(s, crate::parser::RGBA_NAME@) {
        lemma_rgb_lower(s, k as int);
    }
    if let Some(k) = function_len(s, crate::parser::HSL_NAME@) {
        lemma_hsl_lower(s, k as int);
    }
    if let Some(k) = function_len(s, crate::parser::HSLA_NAME@) {
        lemma_hsl_lower(s, k as int);
    }
    if let Some(k) = function_len(s, crate::parser::HWB_NAME@) {
        lemma_hwb_lower(s, k as int);
    }
    crate::laws::named_lookup_ignores_case(s);
    assert(lower_seq(l) =~= lower_seq(s)) by {
        assert forall|i: int| 0 <= i < s.len() implies #[trigger] lower_seq(l)[i] == lower_seq(s)[i] by {
            lemma_lower_byte(s[i]);
        }
    }
    assert(named_color(l) == named_color(s));
}

} // verus!
