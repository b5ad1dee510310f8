//! Laws of the grammar, each proved from the rules of `grammar`.
use vstd::prelude::*;
use crate::ast::ValueModel;
use crate::chars::{ascii_digit, cont_char, start_char};
use crate::grammar::{
    Item, children_of, digit_run, ident_value_end, literal, numeral_end, props_of, skip_ws,
    text_run, value,
};

verus! {

/// A run of decimal digits.
pub open spec fn all_digits(t: Seq<char>) -> bool {
    forall|k: int| 0 <= k < t.len() ==> ascii_digit(#[trigger] t[k])
}

/// An unsigned integer numeral: `0`, or digits that do not start with `0`.
pub open spec fn is_integer_text(t: Seq<char>) -> bool {
    t.len() > 0 && all_digits(t) && (t[0] == '0' ==> t.len() == 1)
}

/// An unsigned integer or decimal numeral (`7`, `0.25`, `120.5`).
pub open spec fn is_numeral(n: Seq<char>) -> bool {
    is_integer_text(n) || exists|k: int|
        0 < k < n.len() - 1 && #[trigger] n[k] == '.' && is_integer_text(n.take(k))
            && all_digits(n.skip(k + 1))
}

/// An identifier: a starting character, then continuing characters.
pub open spec fn is_identifier(t: Seq<char>) -> bool {
    t.len() > 0 && start_char(t[0]) && forall|k: int| 1 <= k < t.len() ==> cont_char(#[trigger] t[k])
}

/// Identifiers joined by single hyphens (`left-to-right`).
pub open spec fn hyphen_join(ts: Seq<Seq<char>>) -> Seq<char>
    decreases ts.len(),
{
    if ts.len() == 0 {
        Seq::empty()
    } else if ts.len() == 1 {
        ts[0]
    } else {
        hyphen_join(ts.drop_last()) + seq!['-'] + ts.last()
    }
}

proof fn lemma_digit_run(s: Seq<char>, i: int, e: int)
    requires
        0 <= i <= e <= s.len(),
        forall|k: int| i <= k < e ==> ascii_digit(#[trigger] s[k]),
        e == s.len() || !ascii_digit(s[e]),
    ensures
        i + digit_run(s, i) == e,
    decreases e - i,
{
    if i < e {
        lemma_digit_run(s, i + 1, e);
    }
}

proof fn lemma_text_run(s: Seq<char>, i: int, e: int)
    requires
        0 <= i <= e < s.len(),
        forall|k: int| i <= k < e ==> #[trigger] s[k] != '"',
        s[e] == '"',
    ensures
        i + text_run(s, i) == e,
    decreases e - i,
{
    if i < e {
        lemma_text_run(s, i + 1, e);
    }
}

/// A numeral `n` at the start of `s`, followed by neither a digit nor `.`,
/// ends where `n` ends.
proof fn lemma_numeral_end(s: Seq<char>, n: Seq<char>)
    requires
        is_numeral(n),
        n.len() <= s.len(),
        forall|k: int| 0 <= k < n.len() ==> #[trigger] s[k] == n[k],
        n.len() == s.len() || (!ascii_digit(s[n.len() as int]) && s[n.len() as int] != '.'),
    ensures
        numeral_end(s, 0) == n.len(),
{
    let len = n.len() as int;
    if is_integer_text(n) {
        assert(s[0] == n[0]);
        if s[0] != '0' {
            assert forall|k: int| 1 <= k < len implies ascii_digit(#[trigger] s[k]) by {
                assert(s[k] == n[k]);
            }
            lemma_digit_run(s, 1, len);
        }
    } else {
        let k = choose|k: int|
            0 < k < n.len() - 1 && #[trigger] n[k] == '.' && is_integer_text(n.take(k))
                && all_digits(n.skip(k + 1));
        assert(s[k] == n[k]);
        assert(n.take(k)[0] == n[0]);
        assert(s[0] == n[0]);
        if s[0] != '0' {
            assert forall|m: int| 1 <= m < k implies ascii_digit(#[trigger] s[m]) by {
                assert(s[m] == n[m]);
                assert(n.take(k)[m] == n[m]);
            }
            lemma_digit_run(s, 1, k);
        }
        assert(n.skip(k + 1)[0] == n[k + 1]);
        assert(s[k + 1] == n[k + 1]);
        assert forall|m: int| k + 2 <= m < len implies ascii_digit(#[trigger] s[m]) by {
            assert(s[m] == n[m]);
            assert(n.skip(k + 1)[m - k - 1] == n[m]);
        }
        lemma_digit_run(s, k + 2, len);
    }
}

/// A numeral alone is a `Number` holding exactly that numeral; followed at
/// once by `%` it is a `Percentage` holding the same numeral, with the `%`
/// consumed.
pub proof fn law_numeral_literal(n: Seq<char>)
    requires
        is_numeral(n),
    ensures
        literal(n, 0) == Ok::<(ValueModel, int), crate::error::ParseError>(
            (ValueModel::Number(n), n.len() as int),
        ),
        literal(n.push('%'), 0) == Ok::<(ValueModel, int), crate::error::ParseError>(
            (ValueModel::Percentage(n), n.len() as int + 1),
        ),
        value(n, 0) == literal(n, 0),
        value(n.push('%'), 0) == literal(n.push('%'), 0),
{
    let p = n.push('%');
    assert(forall|k: int| 0 <= k < n.len() ==> #[trigger] p[k] == n[k]);
    lemma_numeral_end(n, n);
    lemma_numeral_end(p, n);
    if is_integer_text(n) {
        assert(ascii_digit(n[0]));
    } else {
        let k = choose|k: int|
            0 < k < n.len() - 1 && #[trigger] n[k] == '.' && is_integer_text(n.take(k))
                && all_digits(n.skip(k + 1));
        assert(n.take(k)[0] == n[0]);
    }
    assert(n.subrange(0, n.len() as int) =~= n);
    assert(p.subrange(0, n.len() as int) =~= n);
    assert(p[0] == n[0]);
    assert(skip_ws(n, 0) == 0);
    assert(skip_ws(p, 0) == 0);
    assert(skip_ws(n, n.len() as int) == n.len());
    assert(skip_ws(p, p.len() as int) == p.len());
}

/// A quoted text without `"` inside is a `String` holding exactly that text;
/// with a `d` prefix it is a `DString` holding it.
pub proof fn law_quoted_literal(t: Seq<char>)
    requires
        forall|k: int| 0 <= k < t.len() ==> #[trigger] t[k] != '"',
    ensures
        literal(seq!['"'] + t + seq!['"'], 0) == Ok::<(ValueModel, int), crate::error::ParseError>(
            (ValueModel::String(t), t.len() as int + 2),
        ),
        literal(seq!['d', '"'] + t + seq!['"'], 0) == Ok::<
            (ValueModel, int),
            crate::error::ParseError,
        >((ValueModel::DString(t), t.len() as int + 3)),
        value(seq!['"'] + t + seq!['"'], 0) == literal(seq!['"'] + t + seq!['"'], 0),
        value(seq!['d', '"'] + t + seq!['"'], 0) == literal(seq!['d', '"'] + t + seq!['"'], 0),
{
    let a = seq!['"'] + t + seq!['"'];
    let b = seq!['d', '"'] + t + seq!['"'];
    assert forall|k: int| 1 <= k < t.len() as int + 1 implies #[trigger] a[k] != '"' by {
        assert(a[k] == t[k - 1]);
    }
    assert(a[t.len() as int + 1] == '"');
    lemma_text_run(a, 1, t.len() as int + 1);
    assert(a.subrange(1, t.len() as int + 1) =~= t);
    assert forall|k: int| 2 <= k < t.len() as int + 2 implies #[trigger] b[k] != '"' by {
        assert(b[k] == t[k - 2]);
    }
    assert(b[t.len() as int + 2] == '"');
    lemma_text_run(b, 2, t.len() as int + 2);
    assert(b.subrange(2, t.len() as int + 2) =~= t);
    assert(skip_ws(a, 0) == 0);
    assert(skip_ws(b, 0) == 0);
    assert(skip_ws(a, a.len() as int) == a.len());
    assert(skip_ws(b, b.len() as int) == b.len());
}

/// Where the scan of a hyphen-joined identifier may go at `k`: an identifier
/// character, a `-` before an identifier start, or an identifier start right
/// after a `-`.
pub open spec fn join_step(s: Seq<char>, k: int) -> bool {
    cont_char(s[k]) || (s[k] == '-' && k + 1 < s.len() && start_char(s[k + 1])) || (1 <= k
        && s[k - 1] == '-' && start_char(s[k]))
}

proof fn lemma_join_steps(ts: Seq<Seq<char>>)
    requires
        ts.len() > 0,
        forall|i: int| 0 <= i < ts.len() ==> is_identifier(#[trigger] ts[i]),
    ensures
        hyphen_join(ts).len() > 0,
        start_char(hyphen_join(ts)[0]),
        forall|k: int| 1 <= k < hyphen_join(ts).len() ==> #[trigger] join_step(hyphen_join(ts), k),
    decreases ts.len(),
{
    let s = hyphen_join(ts);
    if ts.len() == 1 {
        assert(is_identifier(ts[0]));
        assert forall|k: int| 1 <= k < s.len() implies #[trigger] join_step(s, k) by {
            assert(cont_char(ts[0][k]));
        }
    } else {
        let init = ts.drop_last();
        let t = ts.last();
        assert forall|i: int| 0 <= i < init.len() implies is_identifier(#[trigger] init[i]) by {
            assert(init[i] == ts[i]);
        }
        lemma_join_steps(init);
        let a = hyphen_join(init);
        assert(is_identifier(ts[ts.len() - 1]));
        assert(s == a + seq!['-'] + t);
        assert(s[0] == a[0]);
        assert forall|k: int| 1 <= k < s.len() implies #[trigger] join_step(s, k) by {
            if k < a.len() {
                assert(join_step(a, k));
                assert(s[k] == a[k]);
                assert(s[k - 1] == a[k - 1]);
                if k + 1 < a.len() {
                    assert(s[k + 1] == a[k + 1]);
                }
            } else if k == a.len() {
                assert(s[k + 1] == t[0]);
            } else if k == a.len() + 1 {
                assert(s[k] == t[0]);
            } else {
                assert(s[k] == t[k - a.len() - 1]);
                assert(cont_char(t[k - a.len() - 1]));
            }
        }
    }
}

proof fn lemma_ident_value_end(s: Seq<char>, e: int)
    requires
        1 <= e <= s.len(),
        forall|k: int| e <= k < s.len() ==> #[trigger] join_step(s, k),
        e < s.len() ==> !(s[e - 1] == '-' && start_char(s[e]) && !cont_char(s[e])),
    ensures
        ident_value_end(s, e) == s.len(),
    decreases s.len() - e,
{
    if e < s.len() {
        assert(join_step(s, e));
        if cont_char(s[e]) {
            if e + 1 < s.len() {
                assert(join_step(s, e + 1));
            }
            lemma_ident_value_end(s, e + 1);
        } else {
            if e + 2 < s.len() {
                assert(join_step(s, e + 2));
            }
            lemma_ident_value_end(s, e + 2);
        }
    }
}

/// Identifiers joined by single hyphens are one `Identifier` holding the
/// joined text unchanged.
pub proof fn law_hyphenated_identifier(ts: Seq<Seq<char>>)
    requires
        ts.len() > 0,
        forall|i: int| 0 <= i < ts.len() ==> is_identifier(#[trigger] ts[i]),
    ensures
        literal(hyphen_join(ts), 0) == Ok::<(ValueModel, int), crate::error::ParseError>(
            (ValueModel::Identifier(hyphen_join(ts)), hyphen_join(ts).len() as int),
        ),
{
    let s = hyphen_join(ts);
    lemma_join_steps(ts);
    if 1 < s.len() {
        assert(join_step(s, 1));
    }
    lemma_ident_value_end(s, 1);
    assert(s.subrange(0, s.len() as int) =~= s);
}

/// Splitting a body's entries keeps every entry, each in one of the two lists.
pub proof fn law_partition_counts(items: Seq<Item>)
    ensures
        props_of(items).len() + children_of(items).len() == items.len(),
    decreases items.len(),
{
    if items.len() > 0 {
        law_partition_counts(items.drop_last());
    }
}

/// Splitting keeps relative order: the properties (and the nested elements)
/// of two consecutive runs of entries are those of the first run followed by
/// those of the second.
pub proof fn law_partition_order(a: Seq<Item>, b: Seq<Item>)
    ensures
        props_of(a + b) == props_of(a) + props_of(b),
        children_of(a + b) == children_of(a) + children_of(b),
    decreases b.len(),
{
    if b.len() == 0 {
        assert(a + b =~= a);
        assert(props_of(a) + props_of(b) =~= props_of(a));
        assert(children_of(a) + children_of(b) =~= children_of(a));
    } else {
        law_partition_order(a, b.drop_last());
        assert((a + b).drop_last() =~= a + b.drop_last());
        assert((a + b).last() == b.last());
        assert(props_of(a) + props_of(b.drop_last()).push(b.last()->Prop_0) =~= (props_of(a)
            + props_of(b.drop_last())).push(b.last()->Prop_0));
        assert(children_of(a) + children_of(b.drop_last()).push(b.last()->Child_0) =~= (
        children_of(a) + children_of(b.drop_last())).push(b.last()->Child_0));
    }
}

} // verus!
