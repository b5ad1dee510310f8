//! The parser: each function recognises one rule of the grammar at an offset
//! of the input's characters and agrees with that rule exactly.
use vstd::prelude::*;
use crate::ast::{Document, Element, Language, Property, Value, elements_model, properties_model};
use crate::chars::{
    chars_of, is_ident_continue, is_ident_start, is_space, string_of,
};
use crate::error::{ErrorKind, Expected, ParseError};
use crate::grammar::{
    Item, Parsed, children_of, closer, cont_run, digit_run, directive, document, element,
    ident, ident_value_end, items, literal, numeral_end, property, props_of, quoted,
    skip_ws, text_run, value, whole_document,
};

verus! {

/// An executable result agrees with what the grammar yields.
pub open spec fn agrees<T: View>(r: Result<(T, usize), ParseError>, p: Parsed<T::V>) -> bool {
    match r {
        Ok((v, k)) => p == Ok::<(T::V, int), ParseError>((v@, k as int)),
        Err(e) => p == Err::<(T::V, int), ParseError>(e),
    }
}

/// The offset after a result, or `i` on an error.
pub open spec fn end_of<T>(r: Result<(T, usize), ParseError>, i: int) -> int {
    match r {
        Ok((_, k)) => k as int,
        Err(_) => i,
    }
}

/// Skips the whitespace at `i`.
pub fn skip_space(s: &Vec<char>, i: usize) -> (r: usize)
    requires
        i <= s@.len(),
    ensures
        r == skip_ws(s@, i as int),
        i <= r <= s@.len(),
{
    let mut j = i;
    while j < s.len() && is_space(s[j])
        invariant
            i <= j <= s@.len(),
            skip_ws(s@, j as int) == skip_ws(s@, i as int),
        decreases s@.len() - j,
    {
        j += 1;
    }
    j
}

/// Skips the identifier-continuing characters at `i`.
fn skip_ident_chars(s: &Vec<char>, i: usize) -> (r: usize)
    requires
        i <= s@.len(),
    ensures
        r == i + cont_run(s@, i as int),
        r <= s@.len(),
{
    let mut j = i;
    while j < s.len() && is_ident_continue(s[j])
        invariant
            i <= j <= s@.len(),
            j + cont_run(s@, j as int) == i + cont_run(s@, i as int),
        decreases s@.len() - j,
    {
        j += 1;
    }
    j
}

/// Skips the decimal digits at `i`.
fn skip_digits(s: &Vec<char>, i: usize) -> (r: usize)
    requires
        i <= s@.len(),
    ensures
        r == i + digit_run(s@, i as int),
        r <= s@.len(),
{
    let mut j = i;
    while j < s.len() && '0' <= s[j] && s[j] <= '9'
        invariant
            i <= j <= s@.len(),
            j + digit_run(s@, j as int) == i + digit_run(s@, i as int),
        decreases s@.len() - j,
    {
        j += 1;
    }
    j
}

/// Skips the characters other than `"` at `i`.
fn skip_text(s: &Vec<char>, i: usize) -> (r: usize)
    requires
        i <= s@.len(),
    ensures
        r == i + text_run(s@, i as int),
        r <= s@.len(),
{
    let mut j = i;
    while j < s.len() && s[j] != '"'
        invariant
            i <= j <= s@.len(),
            j + text_run(s@, j as int) == i + text_run(s@, i as int),
        decreases s@.len() - j,
    {
        j += 1;
    }
    j
}

/// Whether `s[i]` exists and is `c`.
fn char_at(s: &Vec<char>, i: usize, c: char) -> (r: bool)
    ensures
        r == crate::grammar::at(s@, i as int, c),
        r ==> i < s@.len() <= usize::MAX,
{
    i < s.len() && s[i] == c
}

/// A padded identifier at `i`.
pub fn ident_at(s: &Vec<char>, i: usize, kind: ErrorKind) -> (r: Result<(String, usize), ParseError>)
    requires
        i <= s@.len(),
    ensures
        agrees(r, ident(s@, i as int, kind)),
        r is Ok ==> i < end_of(r, i as int) <= s@.len(),
{
    let j = skip_space(s, i);
    if j < s.len() && is_ident_start(s[j]) {
        let e = skip_ident_chars(s, j + 1);
        let k = skip_space(s, e);
        Ok((string_of(s, j, e), k))
    } else {
        Err(ParseError { kind, offset: j, expected: Expected::Identifier })
    }
}

/// A quoted text whose opening quote ends just before `i`.
fn quoted_at(s: &Vec<char>, i: usize) -> (r: Result<(String, usize), ParseError>)
    requires
        i <= s@.len(),
    ensures
        agrees(r, quoted(s@, i as int)),
        r is Ok ==> i < end_of(r, i as int) <= s@.len(),
{
    let k = skip_text(s, i);
    if k < s.len() {
        Ok((string_of(s, i, k), k + 1))
    } else {
        Err(ParseError { kind: ErrorKind::Lexical, offset: k, expected: Expected::Quote })
    }
}

/// The end of the hyphen-joined identifier whose scan has reached `e`.
fn skip_ident_value(s: &Vec<char>, e: usize) -> (r: usize)
    requires
        e <= s@.len(),
    ensures
        r == ident_value_end(s@, e as int),
        e <= r <= s@.len(),
{
    let mut k = e;
    loop
        invariant
            e <= k <= s@.len(),
            ident_value_end(s@, k as int) == ident_value_end(s@, e as int),
        decreases s@.len() - k,
    {
        if k < s.len() && is_ident_continue(s[k]) {
            k += 1;
        } else if k < s.len() && k + 1 < s.len() && s[k] == '-' && is_ident_start(s[k + 1]) {
            k += 2;
        } else {
            return k;
        }
    }
}

/// A literal value starting exactly at `j`.
pub fn literal_at(s: &Vec<char>, j: usize) -> (r: Result<(Value, usize), ParseError>)
    requires
        j <= s@.len(),
    ensures
        agrees(r, literal(s@, j as int)),
        r is Ok ==> j < end_of(r, j as int) <= s@.len(),
{
    if char_at(s, j, 'd') && j < s.len() && char_at(s, j + 1, '"') {
        match quoted_at(s, j + 2) {
            Ok((t, k)) => Ok((Value::DString(t), k)),
            Err(e) => Err(e),
        }
    } else if char_at(s, j, '"') {
        match quoted_at(s, j + 1) {
            Ok((t, k)) => Ok((Value::String(t), k)),
            Err(e) => Err(e),
        }
    } else if j < s.len() && '0' <= s[j] && s[j] <= '9' {
        let n0 = if s[j] == '0' {
            j + 1
        } else {
            skip_digits(s, j + 1)
        };
        let n = if char_at(s, n0, '.') && n0 + 1 < s.len() && '0' <= s[n0 + 1] && s[n0 + 1] <= '9' {
            skip_digits(s, n0 + 2)
        } else {
            n0
        };
        if char_at(s, n, '%') {
            Ok((Value::Percentage(string_of(s, j, n)), n + 1))
        } else {
            Ok((Value::Number(string_of(s, j, n)), n))
        }
    } else if j < s.len() && is_ident_start(s[j]) {
        let e = skip_ident_value(s, j + 1);
        Ok((Value::Identifier(string_of(s, j, e)), e))
    } else {
        Err(ParseError { kind: ErrorKind::Lexical, offset: j, expected: Expected::Value })
    }
}

/// A literal value with whitespace around it.
pub fn value_at(s: &Vec<char>, i: usize) -> (r: Result<(Value, usize), ParseError>)
    requires
        i <= s@.len(),
    ensures
        agrees(r, value(s@, i as int)),
        r is Ok ==> i < end_of(r, i as int) <= s@.len(),
{
    let j = skip_space(s, i);
    match literal_at(s, j) {
        Ok((v, k)) => Ok((v, skip_space(s, k))),
        Err(e) => Err(e),
    }
}

/// `name = value` at `i`.
pub fn property_at(s: &Vec<char>, i: usize) -> (r: Result<(Property, usize), ParseError>)
    requires
        i <= s@.len(),
    ensures
        agrees(r, property(s@, i as int)),
        r is Ok ==> i < end_of(r, i as int) <= s@.len(),
{
    match ident_at(s, i, ErrorKind::Lexical) {
        Ok((name, j)) => if char_at(s, j, '=') {
            match value_at(s, j + 1) {
                Ok((v, k)) => Ok((Property { name, value: v }, k)),
                Err(e) => Err(e),
            }
        } else {
            Err(ParseError { kind: ErrorKind::Lexical, offset: j, expected: Expected::Equals })
        },
        Err(e) => Err(e),
    }
}

/// Prepends `acc` to the entries of a body result.
pub open spec fn after(acc: Seq<Item>, r: Parsed<Seq<Item>>) -> Parsed<Seq<Item>> {
    match r {
        Ok((rest, e)) => Ok((acc + rest, e)),
        Err(e) => Err(e),
    }
}

/// The same failure, reported from inside a body.
fn nest(e: ParseError) -> (r: ParseError)
    ensures
        r == crate::error::nested(e),
{
    ParseError { kind: ErrorKind::Composition, offset: e.offset, expected: e.expected }
}

proof fn lemma_push_entry(acc: Seq<Item>, it: Item, r: Parsed<Seq<Item>>)
    ensures
        after(acc, match r {
            Ok((rest, e)) => Ok((seq![it] + rest, e)),
            Err(e) => Err(e),
        }) == after(acc.push(it), r),
        acc.push(it).drop_last() == acc,
{
    assert(acc.push(it).drop_last() =~= acc);
    match r {
        Ok((rest, e)) => {
            assert(acc + (seq![it] + rest) =~= acc.push(it) + rest);
        },
        Err(_) => {},
    }
}

/// `@Kind name { ... }` or `@Kind name ( ... )` at `i`.
pub fn element_at(s: &Vec<char>, i: usize) -> (r: Result<(Element, usize), ParseError>)
    requires
        i <= s@.len(),
    ensures
        agrees(r, element(s@, i as int)),
        r is Ok ==> i < end_of(r, i as int) <= s@.len(),
    decreases s@.len() - i,
{
    if !char_at(s, i, '@') {
        return Err(ParseError { kind: ErrorKind::Structure, offset: i, expected: Expected::At });
    }
    let (kind, j) = match ident_at(s, i + 1, ErrorKind::Structure) {
        Ok(x) => x,
        Err(e) => return Err(e),
    };
    let (name, k) = match ident_at(s, j, ErrorKind::Structure) {
        Ok(x) => x,
        Err(e) => return Err(e),
    };
    if !(k < s.len() && (s[k] == '{' || s[k] == '(')) {
        return Err(
            ParseError { kind: ErrorKind::Structure, offset: k, expected: Expected::OpenDelimiter },
        );
    }
    let close = if s[k] == '{' {
        '}'
    } else {
        ')'
    };
    let mut props: Vec<Property> = Vec::new();
    let mut children: Vec<Element> = Vec::new();
    let ghost mut acc: Seq<Item> = Seq::empty();
    let mut p = k + 1;
    loop
        invariant
            i < k < p <= s@.len(),
            close == closer(s@[k as int]),
            element(s@, i as int) == match items(s@, k + 1, close) {
                Ok((its, e)) => Ok(
                    (
                        crate::ast::ElementModel {
                            kind: kind@,
                            name: name@,
                            properties: props_of(its),
                            children: children_of(its),
                        },
                        e,
                    ),
                ),
                Err(e) => Err(e),
            },
            properties_model(props@) == props_of(acc),
            elements_model(children@) == children_of(acc),
            items(s@, k + 1, close) == after(acc, items(s@, p as int, close)),
        decreases s@.len() - p,
    {
        let q = skip_space(s, p);
        if char_at(s, q, close) {
            let e = skip_space(s, q + 1);
            proof {
                assert(acc + Seq::<Item>::empty() =~= acc);
            }
            return Ok((Element { kind, name, properties: props, children }, e));
        }
        if char_at(s, q, '@') {
            match element_at(s, q) {
                Ok((c, k2)) => {
                    let k3 = skip_space(s, k2);
                    proof {
                        lemma_push_entry(acc, Item::Child(c@), items(s@, k3 as int, close));
                        acc = acc.push(Item::Child(c@));
                    }
                    assert(children@.push(c).drop_last() =~= children@);
                    children.push(c);
                    p = k3;
                },
                Err(e) => return Err(nest(e)),
            }
        } else if q < s.len() && is_ident_start(s[q]) {
            match property_at(s, q) {
                Ok((pr, k2)) => {
                    let k3 = skip_space(s, k2);
                    proof {
                        lemma_push_entry(acc, Item::Prop(pr@), items(s@, k3 as int, close));
                        acc = acc.push(Item::Prop(pr@));
                    }
                    assert(properties_model(props@.push(pr)) =~= properties_model(props@).push(pr@));
                    props.push(pr);
                    p = k3;
                },
                Err(e) => return Err(nest(e)),
            }
        } else {
            return Err(
                ParseError {
                    kind: ErrorKind::Structure,
                    offset: q,
                    expected: Expected::CloseDelimiter,
                },
            );
        }
    }
}

/// The directive at `i`, with whitespace around it.
pub fn directive_at(s: &Vec<char>, i: usize) -> (r: Result<(Language, usize), ParseError>)
    requires
        i <= s@.len(),
    ensures
        agrees(r, directive(s@, i as int)),
        r is Ok ==> i < end_of(r, i as int) <= s@.len(),
{
    let j = skip_space(s, i);
    if !char_at(s, j, '@') {
        return Err(ParseError { kind: ErrorKind::Structure, offset: j, expected: Expected::At });
    }
    let (name, k) = match ident_at(s, j + 1, ErrorKind::Structure) {
        Ok(x) => x,
        Err(e) => return Err(e),
    };
    let (v, m) = match ident_at(s, k, ErrorKind::Structure) {
        Ok(x) => x,
        Err(e) => return Err(e),
    };
    if !char_at(s, m, '(') {
        return Ok((Language { name, value: v, url: None }, m));
    }
    if !char_at(s, m + 1, '"') {
        return Err(ParseError { kind: ErrorKind::Lexical, offset: m + 1, expected: Expected::Quote });
    }
    let (url, q) = match quoted_at(s, m + 2) {
        Ok(x) => x,
        Err(e) => return Err(e),
    };
    if !char_at(s, q, ')') {
        return Err(
            ParseError { kind: ErrorKind::Structure, offset: q, expected: Expected::CloseDelimiter },
        );
    }
    let e = skip_space(s, q + 1);
    Ok((Language { name, value: v, url: Some(url) }, e))
}

/// A directive then a root element at the start of `s`.
pub fn document_at(s: &Vec<char>) -> (r: Result<(Document, usize), ParseError>)
    ensures
        agrees(r, document(s@)),
{
    match directive_at(s, 0) {
        Err(e) => Err(e),
        Ok((language, k)) => match element_at(s, k) {
            Err(e) => Err(e),
            Ok((root, e)) => Ok((Document { language, root }, e)),
        },
    }
}

/// Parses a literal value, with the whitespace around it, at the start of
/// `src`; on success also returns the character offset after it.
pub fn parse_value(src: &str) -> (r: Result<(Value, usize), ParseError>)
    ensures
        agrees(r, value(src@, 0)),
{
    let s = chars_of(src);
    value_at(&s, 0)
}

/// Parses one element at the start of `src`; on success also returns the
/// character offset after it.
pub fn parse_element(src: &str) -> (r: Result<(Element, usize), ParseError>)
    ensures
        agrees(r, element(src@, 0)),
{
    let s = chars_of(src);
    element_at(&s, 0)
}

/// Parses a directive and a root element at the start of `src`, leaving what
/// follows the root element unread; on success also returns the character
/// offset where the root element ends.
pub fn parse_document(src: &str) -> (r: Result<(Document, usize), ParseError>)
    ensures
        agrees(r, document(src@)),
{
    let s = chars_of(src);
    document_at(&s)
}

/// Parses `src` as a whole document: a directive, a root element, and nothing
/// after it.
pub fn parser(src: &str) -> (r: Result<Document, ParseError>)
    ensures
        match r {
            Ok(d) => whole_document(src@) == Ok::<_, ParseError>(d@),
            Err(e) => whole_document(src@) == Err::<crate::ast::DocumentModel, _>(e),
        },
{
    let s = chars_of(src);
    match document_at(&s) {
        Err(e) => Err(e),
        Ok((d, e)) => if e == s.len() {
            Ok(d)
        } else {
            Err(ParseError { kind: ErrorKind::Structure, offset: e, expected: Expected::EndOfInput })
        },
    }
}

} // verus!


