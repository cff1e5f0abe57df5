//! Byte classes and the scanning primitives that every production is built from.
//!
//! Each primitive takes the unconsumed input as a slice and hands back the part
//! that is left after it, which is always a suffix of what it was given.
use vstd::prelude::*;
use vstd::slice::slice_subrange;

verus! {

/// The CSS whitespace bytes: space, tab, line feed, carriage return, form feed.
pub open spec fn spec_is_whitespace(c: u8) -> bool {
    c == 0x20 || c == 0x09 || c == 0x0A || c == 0x0D || c == 0x0C
}

pub open spec fn spec_is_digit(c: u8) -> bool {
    0x30 <= c <= 0x39
}

pub open spec fn spec_is_name_start(c: u8) -> bool {
    (0x61 <= c <= 0x7A) || (0x41 <= c <= 0x5A) || c == 0x5F || c >= 0x80
}

pub open spec fn spec_is_name(c: u8) -> bool {
    spec_is_name_start(c) || spec_is_digit(c) || c == 0x2D
}

/// Whether `s` starts with an identifier: a name-start byte, or `-` followed by
/// `-` or a name-start byte.
pub open spec fn spec_is_ident_start(s: Seq<u8>) -> bool {
    &&& s.len() > 0
    &&& if s[0] == 0x2D {
        s.len() > 1 && (s[1] == 0x2D || spec_is_name_start(s[1]))
    } else {
        spec_is_name_start(s[0])
    }
}

pub open spec fn spec_hex_value(c: u8) -> Result<u8, ()> {
    if 0x30 <= c <= 0x39 {
        Ok((c - 0x30) as u8)
    } else if 0x41 <= c <= 0x46 {
        Ok((c - 0x41 + 10) as u8)
    } else if 0x61 <= c <= 0x66 {
        Ok((c - 0x61 + 10) as u8)
    } else {
        Err(())
    }
}

/// The position of the first byte at or after `p` that is not whitespace.
pub open spec fn ws_end(s: Seq<u8>, p: int) -> int
    decreases s.len() - p,
{
    if 0 <= p < s.len() && spec_is_whitespace(s[p]) {
        ws_end(s, p + 1)
    } else {
        p
    }
}

pub open spec fn lower_byte(c: u8) -> u8 {
    if 0x41 <= c <= 0x5A {
        (c + 0x20) as u8
    } else {
        c
    }
}

/// ASCII case-insensitive equality of two byte strings.
pub open spec fn eq_ignore_case(a: Seq<u8>, b: Seq<u8>) -> bool {
    &&& a.len() == b.len()
    &&& forall|i: int| 0 <= i < a.len() ==> lower_byte(#[trigger] a[i]) == lower_byte(b[i])
}

/// Length of a function token `name(` at the start of `s`, with the whitespace
/// after it.
pub open spec fn function_len(s: Seq<u8>, name: Seq<u8>) -> Option<nat> {
    let n = name.len();
    if s.len() >= n + 1 && eq_ignore_case(s.take(n as int), name) && s[n as int] == 0x28 {
        Some(ws_end(s, (n + 1) as int) as nat)
    } else {
        None
    }
}

/// Length of the keyword `name` at the start of `s`, where no name byte follows it.
pub open spec fn name_len(s: Seq<u8>, name: Seq<u8>) -> Option<nat> {
    let n = name.len();
    if s.len() >= n && eq_ignore_case(s.take(n as int), name) && !(s.len() > n
        && spec_is_name(s[n as int])) {
        Some(n)
    } else {
        None
    }
}

/// The keyword `none`.
pub const NONE_NAME: [u8; 4] = [0x6E, 0x6F, 0x6E, 0x65];

pub proof fn lemma_ws_end_bound(s: Seq<u8>, p: int)
    requires
        0 <= p <= s.len(),
    ensures
        p <= ws_end(s, p) <= s.len(),
    decreases s.len() - p,
{
    if 0 <= p < s.len() && spec_is_whitespace(s[p]) {
        lemma_ws_end_bound(s, p + 1);
    }
}

pub fn is_whitespace(c: u8) -> (r: bool)
    ensures
        r == spec_is_whitespace(c),
{
    c <= 0x20 && (c == 0x20 || c == 0x0A || c == 0x09 || c == 0x0D || c == 0x0C)
}

pub fn is_name_start(c: u8) -> (r: bool)
    ensures
        r == spec_is_name_start(c),
{
    (0x61 <= c && c <= 0x7A) || (0x41 <= c && c <= 0x5A) || c == 0x5F || c >= 0x80
}

pub fn is_name(c: u8) -> (r: bool)
    ensures
        r == spec_is_name(c),
{
    is_name_start(c) || (0x30 <= c && c <= 0x39) || c == 0x2D
}

pub fn is_ident_start(input: &[u8]) -> (r: bool)
    ensures
        r == spec_is_ident_start(input@),
{
    if input.len() == 0 {
        false
    } else if input[0] == 0x2D {
        input.len() > 1 && (input[1] == 0x2D || is_name_start(input[1]))
    } else {
        is_name_start(input[0])
    }
}

/// The value of a decimal digit.
pub fn digit(c: u8) -> (r: Result<u8, ()>)
    ensures
        r == (if spec_is_digit(c) {
            Ok::<u8, ()>((c - 0x30) as u8)
        } else {
            Err(())
        }),
{
    if 0x30 <= c && c <= 0x39 {
        Ok(c - 0x30)
    } else {
        Err(())
    }
}

/// The value of a hexadecimal digit, in either case.
pub fn hex_digit(c: u8) -> (r: Result<u8, ()>)
    ensures
        r == spec_hex_value(c),
{
    if 0x30 <= c && c <= 0x39 {
        Ok(c - 0x30)
    } else if 0x41 <= c && c <= 0x46 {
        Ok(c - 0x41 + 10)
    } else if 0x61 <= c && c <= 0x66 {
        Ok(c - 0x61 + 10)
    } else {
        Err(())
    }
}

/// The position of the first byte at or after `pos` that is not whitespace.
pub fn skip_ws_from(input: &[u8], pos: usize) -> (r: usize)
    requires
        pos <= input@.len(),
    ensures
        r == ws_end(input@, pos as int),
        pos <= r <= input@.len(),
{
    let mut i: usize = pos;
    while i < input.len() && is_whitespace(input[i])
        invariant
            pos <= i <= input.len(),
            ws_end(input@, pos as int) == ws_end(input@, i as int),
        decreases input.len() - i,
    {
        i = i + 1;
    }
    i
}

/// Skips the whitespace at the start of `input`.
pub fn skip_ws(input: &[u8]) -> (r: &[u8])
    ensures
        0 <= ws_end(input@, 0) <= input@.len(),
        r@ == input@.skip(ws_end(input@, 0)),
{
    let i = skip_ws_from(input, 0);
    slice_subrange(input, i, input.len())
}

/// Consumes the byte `b`.
pub fn consume_byte(input: &[u8], b: u8) -> (r: Result<&[u8], ()>)
    ensures
        r is Ok <==> (input@.len() > 0 && input@[0] == b),
        r is Ok ==> r->Ok_0@ == input@.skip(1),
{
    if input.len() > 0 && input[0] == b {
        Ok(slice_subrange(input, 1, input.len()))
    } else {
        Err(())
    }
}

/// The ASCII lower-case form of a byte.
pub fn to_lower(c: u8) -> (r: u8)
    ensures
        r == lower_byte(c),
{
    if 0x41 <= c && c <= 0x5A {
        c + 0x20
    } else {
        c
    }
}

/// ASCII case-insensitive comparison of `input[..name.len()]` with `name`.
fn prefix_eq_ignore_case(input: &[u8], name: &[u8]) -> (r: bool)
    requires
        input@.len() >= name@.len(),
    ensures
        r == eq_ignore_case(input@.take(name@.len() as int), name@),
{
    let mut i: usize = 0;
    while i < name.len()
        invariant
            input@.len() >= name@.len(),
            i <= name.len(),
            forall|j: int| 0 <= j < i ==> lower_byte(input@[j]) == lower_byte(name@[j]),
        decreases name.len() - i,
    {
        if to_lower(input[i]) != to_lower(name[i]) {
            assert(input@.take(name@.len() as int)[i as int] == input@[i as int]);
            return false;
        }
        i = i + 1;
    }
    proof {
        assert forall|j: int| 0 <= j < name@.len() implies lower_byte(
            #[trigger] input@.take(name@.len() as int)[j],
        ) == lower_byte(name@[j]) by {
            assert(input@.take(name@.len() as int)[j] == input@[j]);
        }
    }
    true
}

/// Consumes the function token `name(`, whatever the case of its letters, and
/// the whitespace after it.
pub fn consume_function<'a>(input: &'a [u8], name: &[u8]) -> (r: Result<&'a [u8], ()>)
    requires
        spec_is_ident_start(name@),
    ensures
        r is Ok <==> function_len(input@, name@) is Some,
        r is Ok ==> function_len(input@, name@)->Some_0 <= input@.len(),
        r is Ok ==> r->Ok_0@ == input@.skip(function_len(input@, name@)->Some_0 as int),
{
    let n = name.len();
    if input.len() > n && prefix_eq_ignore_case(input, name) && input[n] == 0x28 {
        let end = skip_ws_from(input, n + 1);
        Ok(slice_subrange(input, end, input.len()))
    } else {
        Err(())
    }
}

/// Consumes the keyword `name`, whatever the case of its letters, where no name
/// byte follows it (so `deg` does not match the start of `degg`).
pub fn consume_name<'a>(input: &'a [u8], name: &[u8]) -> (r: Result<&'a [u8], ()>)
    requires
        spec_is_ident_start(name@),
    ensures
        r is Ok <==> name_len(input@, name@) is Some,
        r is Ok ==> r->Ok_0@ == input@.skip(name@.len() as int),
{
    let n = name.len();
    if input.len() >= n && prefix_eq_ignore_case(input, name) && !(input.len() > n && is_name(
        input[n],
    )) {
        Ok(slice_subrange(input, n, input.len()))
    } else {
        Err(())
    }
}

/// Consumes the keyword `none`.
pub fn consume_none(input: &[u8]) -> (r: Result<&[u8], ()>)
    ensures
        r is Ok <==> name_len(input@, NONE_NAME@) is Some,
        r is Ok ==> r->Ok_0@ == input@.skip(4),
{
    let name: &[u8] = NONE_NAME.as_slice();
    consume_name(input, name)
}

} // verus!
