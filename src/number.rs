//! The CSS `<number>` token: an optional sign, then digits with an optional
//! fraction or a fraction alone, then an optional exponent. The token is only
//! delimited here; no digit run is limited in length.
use crate::scan::{digit, spec_is_digit};
use vstd::prelude::*;
use vstd::slice::slice_subrange;

verus! {

pub open spec fn byte_is(s: Seq<u8>, p: int, b: u8) -> bool {
    0 <= p < s.len() && s[p] == b
}

/// The position after the run of decimal digits that starts at `p`.
pub open spec fn digits_end(s: Seq<u8>, p: int) -> int
    decreases s.len() - p,
{
    if 0 <= p < s.len() && spec_is_digit(s[p]) {
        digits_end(s, p + 1)
    } else {
        p
    }
}

/// The position after an optional `+` or `-` at `p`.
pub open spec fn sign_end(s: Seq<u8>, p: int) -> int {
    if byte_is(s, p, 0x2B) || byte_is(s, p, 0x2D) {
        p + 1
    } else {
        p
    }
}

/// The end of the exponent part that starts at `p`, if there is one; `Some(p)`
/// where no `e` or `E` stands at `p`, `None` where one does and no digit follows.
pub open spec fn exponent_end(s: Seq<u8>, p: int) -> Option<int> {
    if byte_is(s, p, 0x65) || byte_is(s, p, 0x45) {
        let d = sign_end(s, p + 1);
        let e = digits_end(s, d);
        if e == d {
            None
        } else {
            Some(e)
        }
    } else {
        Some(p)
    }
}

/// The end of the numeral that starts at `p`, or `None` where none does.
pub open spec fn number_end(s: Seq<u8>, p: int) -> Option<int> {
    let a = sign_end(s, p);
    let b = digits_end(s, a);
    if b == a && !byte_is(s, a, 0x2E) {
        None
    } else if byte_is(s, b, 0x2E) {
        let c = digits_end(s, b + 1);
        if c == b + 1 {
            None
        } else {
            exponent_end(s, c)
        }
    } else {
        exponent_end(s, b)
    }
}

pub proof fn lemma_digits_end_bound(s: Seq<u8>, p: int)
    requires
        0 <= p <= s.len(),
    ensures
        p <= digits_end(s, p) <= s.len(),
        forall|i: int| p <= i < digits_end(s, p) ==> spec_is_digit(#[trigger] s[i]),
    decreases s.len() - p,
{
    if 0 <= p < s.len() && spec_is_digit(s[p]) {
        lemma_digits_end_bound(s, p + 1);
    }
}

pub proof fn lemma_number_end_bound(s: Seq<u8>, p: int)
    requires
        0 <= p <= s.len(),
    ensures
        number_end(s, p) matches Some(e) ==> p < e <= s.len(),
{
    let a = sign_end(s, p);
    lemma_digits_end_bound(s, a);
    let b = digits_end(s, a);
    if byte_is(s, b, 0x2E) {
        lemma_digits_end_bound(s, b + 1);
        let c = digits_end(s, b + 1);
        if byte_is(s, c, 0x65) || byte_is(s, c, 0x45) {
            lemma_digits_end_bound(s, sign_end(s, c + 1));
        }
    } else if byte_is(s, b, 0x65) || byte_is(s, b, 0x45) {
        lemma_digits_end_bound(s, sign_end(s, b + 1));
    }
}

fn sign_end_at(input: &[u8], pos: usize) -> (r: usize)
    requires
        pos <= input@.len(),
    ensures
        r == sign_end(input@, pos as int),
        r <= input@.len(),
{
    if pos < input.len() && (input[pos] == 0x2B || input[pos] == 0x2D) {
        pos + 1
    } else {
        pos
    }
}

fn digits_end_at(input: &[u8], pos: usize) -> (r: usize)
    requires
        pos <= input@.len(),
    ensures
        r == digits_end(input@, pos as int),
        pos <= r <= input@.len(),
{
    let mut i: usize = pos;
    while i < input.len() && digit(input[i]).is_ok()
        invariant
            pos <= i <= input.len(),
            digits_end(input@, pos as int) == digits_end(input@, i as int),
        decreases input.len() - i,
    {
        i = i + 1;
    }
    i
}

fn exponent_end_at(input: &[u8], pos: usize) -> (r: Result<usize, ()>)
    requires
        pos <= input@.len(),
    ensures
        r is Ok <==> exponent_end(input@, pos as int) is Some,
        r is Ok ==> r->Ok_0 as int == exponent_end(input@, pos as int)->Some_0,
        r is Ok ==> r->Ok_0 <= input@.len(),
{
    if pos < input.len() && (input[pos] == 0x65 || input[pos] == 0x45) {
        let d = sign_end_at(input, pos + 1);
        let e = digits_end_at(input, d);
        if e == d {
            Err(())
        } else {
            Ok(e)
        }
    } else {
        Ok(pos)
    }
}

/// The end of the numeral that starts at `pos`.
pub fn number_end_from(input: &[u8], pos: usize) -> (r: Result<usize, ()>)
    requires
        pos <= input@.len(),
    ensures
        r is Ok <==> number_end(input@, pos as int) is Some,
        r is Ok ==> r->Ok_0 as int == number_end(input@, pos as int)->Some_0,
        r is Ok ==> pos < r->Ok_0 <= input@.len(),
{
    proof {
        lemma_number_end_bound(input@, pos as int);
    }
    let a = sign_end_at(input, pos);
    let b = digits_end_at(input, a);
    if b == a && !(a < input.len() && input[a] == 0x2E) {
        Err(())
    } else if b < input.len() && input[b] == 0x2E {
        let c = digits_end_at(input, b + 1);
        if c == b + 1 {
            Err(())
        } else {
            exponent_end_at(input, c)
        }
    } else {
        exponent_end_at(input, b)
    }
}

/// Consumes the longest numeral at the start of `input`, without reading its
/// value.
pub fn consume_number(input: &[u8]) -> (r: Result<&[u8], ()>)
    ensures
        r is Ok <==> number_end(input@, 0) is Some,
        r is Ok ==> r->Ok_0@ == input@.skip(number_end(input@, 0)->Some_0),
{
    let end = number_end_from(input, 0)?;
    Ok(slice_subrange(input, end, input.len()))
}

} // verus!
