//! Character classes that the grammar borrows from chumsky, and the few string
//! operations of std the parser needs.
use vstd::prelude::*;
use chumsky::text::Char;
use vstd::std_specs::iter::IteratorSpec;

verus! {

/// Unicode `White_Space`, as `char::is_whitespace` decides it.
pub uninterp spec fn white_space(c: char) -> bool;

/// Unicode `XID_Start`, as `unicode_ident::is_xid_start` decides it.
pub uninterp spec fn xid_start(c: char) -> bool;

/// Unicode `XID_Continue`, as `unicode_ident::is_xid_continue` decides it.
pub uninterp spec fn xid_continue(c: char) -> bool;

/// ASCII letters.
pub open spec fn ascii_alpha(c: char) -> bool {
    ('a' <= c && c <= 'z') || ('A' <= c && c <= 'Z')
}

/// ASCII decimal digits.
pub open spec fn ascii_digit(c: char) -> bool {
    '0' <= c && c <= '9'
}

/// Characters below 128.
pub open spec fn is_ascii_char(c: char) -> bool {
    (c as u32) < 128
}

/// Whitespace that padding skips: on ASCII, space and `\t`..=`\r`.
pub open spec fn space_char(c: char) -> bool {
    if is_ascii_char(c) {
        c == ' ' || ('\t' <= c && c <= '\r')
    } else {
        white_space(c)
    }
}

/// A character that may start an identifier: on ASCII, a letter or `_`.
pub open spec fn start_char(c: char) -> bool {
    if is_ascii_char(c) {
        ascii_alpha(c) || c == '_'
    } else {
        xid_start(c)
    }
}

/// A character that may continue an identifier: on ASCII, a letter, a digit or `_`.
pub open spec fn cont_char(c: char) -> bool {
    if is_ascii_char(c) {
        ascii_alpha(c) || ascii_digit(c) || c == '_'
    } else {
        xid_continue(c)
    }
}

/// Relies on chumsky's `Char::is_whitespace` for `char`, which is
/// `char::is_whitespace`: the Unicode `White_Space` property, which on ASCII
/// holds of space and `\t`..=`\r`.
#[verifier::external_body]
pub(crate) fn is_space(c: char) -> (r: bool)
    ensures
        !is_ascii_char(c) ==> r == white_space(c),
        r == space_char(c),
{
    Char::is_whitespace(&c)
}

/// Relies on chumsky's `Char::is_ident_start` for `char`, which is
/// `unicode_ident::is_xid_start(c) || c == '_'`; unicode-ident's ASCII table
/// holds the letters.
#[verifier::external_body]
pub(crate) fn is_ident_start(c: char) -> (r: bool)
    ensures
        !is_ascii_char(c) ==> r == xid_start(c),
        r == start_char(c),
{
    Char::is_ident_start(&c)
}

/// Relies on chumsky's `Char::is_ident_continue` for `char`, which is
/// `unicode_ident::is_xid_continue(c)`; unicode-ident's ASCII table holds the
/// letters, the digits and `_`.
#[verifier::external_body]
pub(crate) fn is_ident_continue(c: char) -> (r: bool)
    ensures
        !is_ascii_char(c) ==> r == xid_continue(c),
        r == cont_char(c),
{
    Char::is_ident_continue(&c)
}

/// `String::push` appends one character.
pub assume_specification[ std::string::String::push ](s: &mut std::string::String, ch: char)
    ensures
        final(s)@ == old(s)@.push(ch),
;

/// The characters of `s`, in order.
pub fn chars_of(s: &str) -> (r: Vec<char>)
    ensures
        r@ == s@,
{
    let mut r: Vec<char> = Vec::new();
    let mut it = s.chars();
    proof {
        broadcast use vstd::string::group_string_axioms;
    }
    loop
        invariant
            it.obeys_prophetic_iter_laws(),
            it.decrease() is Some,
            r@ + it.remaining() == s@,
        ensures
            r@ == s@,
        decreases it.decrease()->0,
    {
        match it.next() {
            Some(c) => {
                assert(r@.push(c) + it.remaining() =~= r@ + seq![c] + it.remaining());
                r.push(c);
            },
            None => {
                assert(r@ + it.remaining() =~= r@);
                break;
            },
        }
    }
    r
}

/// The characters `s[from..to]` as a `String`.
pub fn string_of(s: &Vec<char>, from: usize, to: usize) -> (r: String)
    requires
        from <= to <= s@.len(),
    ensures
        r@ == s@.subrange(from as int, to as int),
{
    let mut r = String::new();
    let mut k = from;
    while k < to
        invariant
            from <= k <= to <= s@.len(),
            r@ == s@.subrange(from as int, k as int),
        decreases to - k,
    {
        r.push(s[k]);
        assert(s@.subrange(from as int, k + 1) =~= s@.subrange(from as int, k as int).push(s@[k as int]));
        k += 1;
    }
    r
}

} // verus!
