//! The grammar, stated as functions from an input and a character offset to
//! what is recognised there and the offset just after it.
use vstd::prelude::*;
use crate::ast::{ElementModel, LanguageModel, PropertyModel, ValueModel, DocumentModel};
use crate::chars::{ascii_digit, cont_char, space_char, start_char};
use crate::error::{fail, nested, ErrorKind, Expected, ParseError};

verus! {

/// What a rule yields at an offset: a value and the offset after it, or an error.
pub type Parsed<T> = Result<(T, int), ParseError>;

/// Length of the whitespace run at `i`.
pub open spec fn ws_run(s: Seq<char>, i: int) -> nat
    decreases s.len() - i,
{
    if 0 <= i < s.len() && space_char(s[i]) {
        1 + ws_run(s, i + 1)
    } else {
        0
    }
}

/// The first offset at or after `i` that is not whitespace.
pub open spec fn skip_ws(s: Seq<char>, i: int) -> int {
    i + ws_run(s, i)
}

/// Length of the run of identifier-continuing characters at `i`.
pub open spec fn cont_run(s: Seq<char>, i: int) -> nat
    decreases s.len() - i,
{
    if 0 <= i < s.len() && cont_char(s[i]) {
        1 + cont_run(s, i + 1)
    } else {
        0
    }
}

/// Length of the run of decimal digits at `i`.
pub open spec fn digit_run(s: Seq<char>, i: int) -> nat
    decreases s.len() - i,
{
    if 0 <= i < s.len() && ascii_digit(s[i]) {
        1 + digit_run(s, i + 1)
    } else {
        0
    }
}

/// Length of the run of characters other than `"` at `i`.
pub open spec fn text_run(s: Seq<char>, i: int) -> nat
    decreases s.len() - i,
{
    if 0 <= i < s.len() && s[i] != '"' {
        1 + text_run(s, i + 1)
    } else {
        0
    }
}

/// Whether `s[i]` exists and is `c`.
pub open spec fn at(s: Seq<char>, i: int, c: char) -> bool {
    0 <= i < s.len() && s[i] == c
}

/// A padded identifier at `i`: whitespace, an identifier start, identifier
/// characters, whitespace. A missing identifier is an error of class `kind`.
pub open spec fn ident(s: Seq<char>, i: int, kind: ErrorKind) -> Parsed<Seq<char>> {
    let j = skip_ws(s, i);
    if 0 <= j < s.len() && start_char(s[j]) {
        let e = j + 1 + cont_run(s, j + 1);
        Ok((s.subrange(j, e), skip_ws(s, e)))
    } else {
        Err(fail(kind, j, Expected::Identifier))
    }
}

/// The body of a quoted text starting at `i`, just after its opening quote, up
/// to the closing quote; the offset after is past the closing quote.
pub open spec fn quoted(s: Seq<char>, i: int) -> Parsed<Seq<char>> {
    let k = i + text_run(s, i);
    if k < s.len() {
        Ok((s.subrange(i, k), k + 1))
    } else {
        Err(fail(ErrorKind::Lexical, k, Expected::Quote))
    }
}

/// The end of a numeral that starts with a digit at `j`: `0` or a digit run
/// without a leading zero, then optionally `.` and a digit run.
pub open spec fn numeral_end(s: Seq<char>, j: int) -> int {
    let n = if s[j] == '0' {
        j + 1
    } else {
        j + 1 + digit_run(s, j + 1)
    };
    if at(s, n, '.') && n + 1 < s.len() && ascii_digit(s[n + 1]) {
        n + 2 + digit_run(s, n + 2)
    } else {
        n
    }
}

/// The end of a hyphen-joined identifier (`top-to-bottom`) whose scan has
/// reached `e`: identifier characters, and `-` where an identifier starts
/// right after it.
pub open spec fn ident_value_end(s: Seq<char>, e: int) -> int
    decreases s.len() - e,
{
    if 0 <= e < s.len() && cont_char(s[e]) {
        ident_value_end(s, e + 1)
    } else if 0 <= e && e + 1 < s.len() && s[e] == '-' && start_char(s[e + 1]) {
        ident_value_end(s, e + 2)
    } else {
        e
    }
}

/// A literal value starting exactly at `j`, tried in this order: `d"..."`,
/// `"..."`, a numeral with an optional `%`, a hyphen-joined identifier.
pub open spec fn literal(s: Seq<char>, j: int) -> Parsed<ValueModel> {
    if at(s, j, 'd') && at(s, j + 1, '"') {
        match quoted(s, j + 2) {
            Ok((t, k)) => Ok((ValueModel::DString(t), k)),
            Err(e) => Err(e),
        }
    } else if at(s, j, '"') {
        match quoted(s, j + 1) {
            Ok((t, k)) => Ok((ValueModel::String(t), k)),
            Err(e) => Err(e),
        }
    } else if 0 <= j < s.len() && ascii_digit(s[j]) {
        let n = numeral_end(s, j);
        if at(s, n, '%') {
            Ok((ValueModel::Percentage(s.subrange(j, n)), n + 1))
        } else {
            Ok((ValueModel::Number(s.subrange(j, n)), n))
        }
    } else if 0 <= j < s.len() && start_char(s[j]) {
        let e = ident_value_end(s, j + 1);
        Ok((ValueModel::Identifier(s.subrange(j, e)), e))
    } else {
        Err(fail(ErrorKind::Lexical, j, Expected::Value))
    }
}

/// A literal value with whitespace around it.
pub open spec fn value(s: Seq<char>, i: int) -> Parsed<ValueModel> {
    match literal(s, skip_ws(s, i)) {
        Ok((v, k)) => Ok((v, skip_ws(s, k))),
        Err(e) => Err(e),
    }
}

/// `name = value`.
pub open spec fn property(s: Seq<char>, i: int) -> Parsed<PropertyModel> {
    match ident(s, i, ErrorKind::Lexical) {
        Ok((name, j)) => if at(s, j, '=') {
            match value(s, j + 1) {
                Ok((v, k)) => Ok((PropertyModel { name, value: v }, k)),
                Err(e) => Err(e),
            }
        } else {
            Err(fail(ErrorKind::Lexical, j, Expected::Equals))
        },
        Err(e) => Err(e),
    }
}

/// One entry of an element body, before the body is split.
pub enum Item {
    Prop(PropertyModel),
    Child(ElementModel),
}

/// The properties among `items`, in their order.
pub open spec fn props_of(items: Seq<Item>) -> Seq<PropertyModel>
    decreases items.len(),
{
    if items.len() == 0 {
        Seq::empty()
    } else {
        let rest = props_of(items.drop_last());
        match items.last() {
            Item::Prop(p) => rest.push(p),
            Item::Child(_) => rest,
        }
    }
}

/// The nested elements among `items`, in their order.
pub open spec fn children_of(items: Seq<Item>) -> Seq<ElementModel>
    decreases items.len(),
{
    if items.len() == 0 {
        Seq::empty()
    } else {
        let rest = children_of(items.drop_last());
        match items.last() {
            Item::Prop(_) => rest,
            Item::Child(c) => rest.push(c),
        }
    }
}

/// The closing delimiter that matches an opening one.
pub open spec fn closer(open: char) -> char {
    if open == '{' {
        '}'
    } else {
        ')'
    }
}

/// `@Kind name` then a body in `{ }` or in `( )`, its entries split into
/// properties and nested elements. (`i < k` always holds after the two
/// identifiers; stating it keeps the recursion visibly well-founded.)
pub open spec fn element(s: Seq<char>, i: int) -> Parsed<ElementModel>
    decreases s.len() - i, 0int,
{
    if !at(s, i, '@') {
        Err(fail(ErrorKind::Structure, i, Expected::At))
    } else {
        match ident(s, i + 1, ErrorKind::Structure) {
            Err(e) => Err(e),
            Ok((kind, j)) => match ident(s, j, ErrorKind::Structure) {
                Err(e) => Err(e),
                Ok((name, k)) => if i < k < s.len() && (s[k] == '{' || s[k] == '(') {
                    match items(s, k + 1, closer(s[k])) {
                        Ok((its, e)) => Ok(
                            (
                                ElementModel {
                                    kind,
                                    name,
                                    properties: props_of(its),
                                    children: children_of(its),
                                },
                                e,
                            ),
                        ),
                        Err(e) => Err(e),
                    }
                } else {
                    Err(fail(ErrorKind::Structure, k, Expected::OpenDelimiter))
                },
            },
        }
    }
}

/// The entries of a body from `i` up to and past its closing delimiter
/// `close`. An entry that starts with `@` is a nested element, one that starts
/// an identifier is a property; anything else must be `close`. (An entry
/// always ends after `i` and within the input; the test says so for the
/// recursion's sake.)
pub open spec fn items(s: Seq<char>, i: int, close: char) -> Parsed<Seq<Item>>
    decreases s.len() - i, 1int,
{
    let j = skip_ws(s, i);
    if at(s, j, close) {
        Ok((Seq::empty(), skip_ws(s, j + 1)))
    } else {
        let entry: Parsed<Item> = if at(s, j, '@') {
            match element(s, j) {
                Ok((c, k)) => Ok((Item::Child(c), skip_ws(s, k))),
                Err(e) => Err(nested(e)),
            }
        } else if 0 <= j < s.len() && start_char(s[j]) {
            match property(s, j) {
                Ok((p, k)) => Ok((Item::Prop(p), skip_ws(s, k))),
                Err(e) => Err(nested(e)),
            }
        } else {
            Err(fail(ErrorKind::Structure, j, Expected::CloseDelimiter))
        };
        match entry {
            Err(e) => Err(e),
            Ok((it, k)) => if i < k <= s.len() {
                match items(s, k, close) {
                    Ok((rest, e)) => Ok((seq![it] + rest, e)),
                    Err(e) => Err(e),
                }
            } else {
                Err(fail(ErrorKind::Structure, k, Expected::CloseDelimiter))
            },
        }
    }
}

/// The leading directive, `@name value` or `@name value("url")`, with
/// whitespace around it.
pub open spec fn directive(s: Seq<char>, i: int) -> Parsed<LanguageModel> {
    let j = skip_ws(s, i);
    if !at(s, j, '@') {
        Err(fail(ErrorKind::Structure, j, Expected::At))
    } else {
        match ident(s, j + 1, ErrorKind::Structure) {
            Err(e) => Err(e),
            Ok((name, k)) => match ident(s, k, ErrorKind::Structure) {
                Err(e) => Err(e),
                Ok((v, m)) => if at(s, m, '(') {
                    if !at(s, m + 1, '"') {
                        Err(fail(ErrorKind::Lexical, m + 1, Expected::Quote))
                    } else {
                        match quoted(s, m + 2) {
                            Err(e) => Err(e),
                            Ok((url, q)) => if at(s, q, ')') {
                                Ok((LanguageModel { name, value: v, url: Some(url) }, skip_ws(s, q + 1)))
                            } else {
                                Err(fail(ErrorKind::Structure, q, Expected::CloseDelimiter))
                            },
                        }
                    }
                } else {
                    Ok((LanguageModel { name, value: v, url: None }, m))
                },
            },
        }
    }
}

/// A directive then a root element, from the start of the input; the offset
/// is where the root element ends.
pub open spec fn document(s: Seq<char>) -> Parsed<DocumentModel> {
    match directive(s, 0) {
        Err(e) => Err(e),
        Ok((language, k)) => match element(s, k) {
            Err(e) => Err(e),
            Ok((root, e)) => Ok((DocumentModel { language, root }, e)),
        },
    }
}

/// A document that must take up the whole input.
pub open spec fn whole_document(s: Seq<char>) -> Result<DocumentModel, ParseError> {
    match document(s) {
        Err(e) => Err(e),
        Ok((d, e)) => if e == s.len() {
            Ok(d)
        } else {
            Err(fail(ErrorKind::Structure, e, Expected::EndOfInput))
        },
    }
}

} // verus!
