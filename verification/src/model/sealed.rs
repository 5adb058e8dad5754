//! Texts that read as one unit: what the written form of an expression is.
//!
//! A sealed text is balanced, has no white space at its ends, holds outside its
//! parentheses and brackets nothing but name characters, decimal points and
//! openers, and holds no keyword there. Such a text does not split at any
//! operator, and it stays one unit inside a longer text.

use vstd::prelude::*;
use crate::model::grammar::{split_level, word_here};
use crate::model::scan::{
    balanced, depth_at, is_closer, is_digit, is_identifier, is_keyword, is_letter, is_number,
    is_opener, is_space, is_word, is_word_char, keyword_at, last_op, lemma_last_op, matches_word,
    op_at, skip_digits, Level,
};
use crate::model::text_laws::{
    flat, lemma_balanced_concat, lemma_depth_concat, lemma_flat_balanced, lemma_flat_depth,
    lemma_wrapped_depth, tight, wrapped,
};

verus! {

/// A character that may stand outside all parentheses in a sealed text.
pub open spec fn plain(c: char) -> bool {
    is_word_char(c) || c == '.' || is_opener(c)
}

/// Whether the two texts are one of the keywords in upper and in lower case.
pub open spec fn keyword_pair(upper: Seq<char>, lower: Seq<char>) -> bool {
    ||| (upper == "IF"@ && lower == "if"@)
    ||| (upper == "THEN"@ && lower == "then"@)
    ||| (upper == "ELSE"@ && lower == "else"@)
}

/// Whether no keyword stands at `i` outside all parentheses and brackets.
pub open spec fn no_keyword_at(s: Seq<char>, i: int) -> bool {
    &&& !word_here(s, i, "IF"@, "if"@)
    &&& !word_here(s, i, "THEN"@, "then"@)
    &&& !word_here(s, i, "ELSE"@, "else"@)
}

/// Whether the text reads as one unit.
pub open spec fn sealed(p: Seq<char>) -> bool {
    &&& tight(p)
    &&& balanced(p)
    &&& forall|i: int| 0 <= i < p.len() && #[trigger] depth_at(p, i) == 0 ==> plain(p[i])
    &&& forall|i: int| 0 <= i < p.len() ==> #[trigger] no_keyword_at(p, i)
}

/// The keywords are made of letters, two or four of them.
pub proof fn lemma_keyword_letters(upper: Seq<char>, lower: Seq<char>)
    requires
        keyword_pair(upper, lower),
    ensures
        upper.len() == lower.len(),
        upper.len() == 2 || upper.len() == 4,
        forall|j: int| 0 <= j < upper.len() ==> is_letter(#[trigger] upper[j]),
        forall|j: int| 0 <= j < lower.len() ==> is_letter(#[trigger] lower[j]),
{
    reveal_strlit("IF");
    reveal_strlit("if");
    reveal_strlit("THEN");
    reveal_strlit("then");
    reveal_strlit("ELSE");
    reveal_strlit("else");
}

/// A text that is a keyword as a whole is a keyword.
pub proof fn lemma_whole_keyword(s: Seq<char>, upper: Seq<char>, lower: Seq<char>)
    requires
        keyword_pair(upper, lower),
        s.len() == upper.len(),
        matches_word(s, 0, upper, lower),
    ensures
        is_keyword(s),
{
    reveal_strlit("IF");
    reveal_strlit("if");
    reveal_strlit("THEN");
    reveal_strlit("then");
    reveal_strlit("ELSE");
    reveal_strlit("else");
}

/// A sealed text has no operator and no comma outside its parentheses and
/// brackets, so it does not split.
pub proof fn lemma_no_split(p: Seq<char>)
    requires
        sealed(p),
    ensures
        forall|level: Level| #[trigger] last_op(p, level, p.len() as int) is None,
        split_level(p) is None,
{
    assert forall|level: Level| #[trigger] last_op(p, level, p.len() as int) is None by {
        lemma_last_op(p, level, p.len() as int);
        if let Some(q) = last_op(p, level, p.len() as int) {
            assert(depth_at(p, q) == 0);
            assert(plain(p[q]));
        }
    }
    assert(last_op(p, Level::Comparison, p.len() as int) is None);
    assert(last_op(p, Level::Additive, p.len() as int) is None);
    assert(last_op(p, Level::Multiplicative, p.len() as int) is None);
    assert(last_op(p, Level::Power, p.len() as int) is None);
}

/// Inside a longer text, a sealed text still holds no keyword, provided the
/// text before it is balanced and the text after it does not start with a letter.
pub proof fn lemma_embedded_quiet(a: Seq<char>, p: Seq<char>, b: Seq<char>, k: int)
    requires
        sealed(p),
        depth_at(a, a.len() as int) == 0,
        b.len() == 0 || !is_letter(b[0]),
        0 <= k < p.len(),
    ensures
        no_keyword_at(a + p + b, a.len() + k),
{
    lemma_embedded_keyword(a, p, b, k, "IF"@, "if"@);
    lemma_embedded_keyword(a, p, b, k, "THEN"@, "then"@);
    lemma_embedded_keyword(a, p, b, k, "ELSE"@, "else"@);
}

pub proof fn lemma_embedded_keyword(
    a: Seq<char>,
    p: Seq<char>,
    b: Seq<char>,
    k: int,
    upper: Seq<char>,
    lower: Seq<char>,
)
    requires
        sealed(p),
        keyword_pair(upper, lower),
        depth_at(a, a.len() as int) == 0,
        b.len() == 0 || !is_letter(b[0]),
        0 <= k < p.len(),
    ensures
        !word_here(a + p + b, a.len() + k, upper, lower),
{
    let u = a + p + b;
    let i = a.len() + k;
    let m = upper.len() as int;
    lemma_keyword_letters(upper, lower);
    assert(no_keyword_at(p, k));
    if word_here(u, i, upper, lower) {
        assert(depth_at(u, i) == depth_at(p, k)) by {
            lemma_depth_concat(a + p, b, i);
            lemma_depth_concat(a, p, i);
        }
        if k + m <= p.len() {
            assert forall|j: int| 0 <= j < m implies p[k + j] == upper[j] || p[k + j]
                == lower[j] by {
                assert(u[i + j] == p[k + j]);
            }
            assert(matches_word(p, k, upper, lower));
            if k > 0 {
                assert(u[i - 1] == p[k - 1]);
            }
            if k + m < p.len() {
                assert(u[i + m] == p[k + m]);
            }
            assert(keyword_at(p, k, upper, lower));
            assert(word_here(p, k, upper, lower));
        } else {
            let j = p.len() - k;
            assert(0 <= j < m);
            assert(i + j == a.len() + p.len());
            assert(u[i + j] == b[0]);
            assert(u[i + j] == upper[j] || u[i + j] == lower[j]);
            assert(is_letter(upper[j]) && is_letter(lower[j]));
        }
    }
}

pub proof fn lemma_skip_digits(s: Seq<char>, i: int)
    requires
        0 <= i <= s.len(),
    ensures
        i <= skip_digits(s, i) <= s.len(),
        forall|k: int| i <= k < skip_digits(s, i) ==> is_digit(s[k]),
        skip_digits(s, i) < s.len() ==> !is_digit(s[skip_digits(s, i)]),
    decreases s.len() - i,
{
    if i < s.len() && is_digit(s[i]) {
        lemma_skip_digits(s, i + 1);
    }
}

/// A numeral is made of digits and decimal points.
pub proof fn lemma_number_chars(s: Seq<char>)
    requires
        is_number(s),
    ensures
        s.len() > 0,
        forall|i: int| 0 <= i < s.len() ==> is_digit(#[trigger] s[i]) || s[i] == '.',
{
    lemma_skip_digits(s, 0);
    let p = skip_digits(s, 0);
    if p < s.len() {
        lemma_skip_digits(s, p + 1);
    }
}

/// A text of name characters, decimal points and nothing else, which is no
/// keyword and does not start with one cut off by a point, is sealed. This
/// covers names and numerals.
pub proof fn lemma_sealed_run(s: Seq<char>)
    requires
        s.len() > 0,
        forall|i: int| 0 <= i < s.len() ==> is_word_char(#[trigger] s[i]) || s[i] == '.',
        is_identifier(s) || is_number(s),
    ensures
        sealed(s),
        flat(s),
{
    assert(flat(s));
    lemma_flat_balanced(s);
    assert forall|i: int| 0 <= i < s.len() && #[trigger] depth_at(s, i) == 0 implies plain(
        s[i],
    ) by {}
    assert forall|i: int| 0 <= i < s.len() implies #[trigger] no_keyword_at(s, i) by {
        lemma_run_keyword(s, i, "IF"@, "if"@);
        lemma_run_keyword(s, i, "THEN"@, "then"@);
        lemma_run_keyword(s, i, "ELSE"@, "else"@);
    }
}

proof fn lemma_run_keyword(s: Seq<char>, i: int, upper: Seq<char>, lower: Seq<char>)
    requires
        s.len() > 0,
        forall|i: int| 0 <= i < s.len() ==> is_word_char(#[trigger] s[i]) || s[i] == '.',
        is_identifier(s) || is_number(s),
        keyword_pair(upper, lower),
        0 <= i < s.len(),
    ensures
        !word_here(s, i, upper, lower),
{
    lemma_keyword_letters(upper, lower);
    let m = upper.len() as int;
    if keyword_at(s, i, upper, lower) {
        assert(s[i + 0] == upper[0] || s[i + 0] == lower[0]);
        assert(is_letter(upper[0]) && is_letter(lower[0]));
        if is_number(s) {
            lemma_number_chars(s);
            assert(is_digit(s[i]) || s[i] == '.');
        } else {
            if i > 0 {
                assert(is_word_char(s[i - 1]));
            }
            if i + m < s.len() {
                assert(is_word_char(s[i + m]));
            }
            lemma_whole_keyword(s, upper, lower);
        }
    }
}

/// A balanced text between an opener and its closer is sealed.
pub proof fn lemma_sealed_wrapped(open: char, inner: Seq<char>, close: char)
    requires
        is_opener(open),
        is_closer(close),
        balanced(inner),
    ensures
        sealed(wrapped(open, inner, close)),
{
    let w = wrapped(open, inner, close);
    lemma_wrapped_depth(open, inner, close);
    assert forall|i: int| 0 <= i < w.len() && #[trigger] depth_at(w, i) == 0 implies plain(
        w[i],
    ) by {
        if i >= 1 {
            assert(depth_at(w, i) == 1 + depth_at(inner, i - 1));
        }
    }
    assert forall|i: int| 0 <= i < w.len() implies #[trigger] no_keyword_at(w, i) by {
        if i >= 1 {
            assert(depth_at(w, i) == 1 + depth_at(inner, i - 1));
        } else {
            lemma_opener_keyword(w, "IF"@, "if"@);
            lemma_opener_keyword(w, "THEN"@, "then"@);
            lemma_opener_keyword(w, "ELSE"@, "else"@);
        }
    }
}

proof fn lemma_opener_keyword(w: Seq<char>, upper: Seq<char>, lower: Seq<char>)
    requires
        w.len() > 0,
        !is_letter(w[0]),
        keyword_pair(upper, lower),
    ensures
        !keyword_at(w, 0, upper, lower),
{
    lemma_keyword_letters(upper, lower);
    if keyword_at(w, 0, upper, lower) {
        assert(w[0int + 0] == upper[0] || w[0int + 0] == lower[0]);
        assert(is_letter(upper[0]) && is_letter(lower[0]));
    }
}

/// A name followed by a balanced text between an opener and its closer is sealed.
pub proof fn lemma_sealed_headed(name: Seq<char>, open: char, inner: Seq<char>, close: char)
    requires
        is_identifier(name),
        is_opener(open),
        is_closer(close),
        balanced(inner),
    ensures
        sealed(name + wrapped(open, inner, close)),
        balanced(name + wrapped(open, inner, close)),
        forall|i: int|
            name.len() < i < (name + wrapped(open, inner, close)).len() ==> depth_at(
                name + wrapped(open, inner, close),
                i,
            ) >= 1,
{
    let w = wrapped(open, inner, close);
    let u = name + w;
    lemma_wrapped_depth(open, inner, close);
    assert(flat(name));
    lemma_flat_balanced(name);
    lemma_balanced_concat(name, w);
    lemma_flat_depth(name, name.len() as int);
    assert forall|i: int| name.len() < i < u.len() implies depth_at(u, i) >= 1 by {
        lemma_depth_concat(name, w, i);
        assert(depth_at(w, i - name.len()) == 1 + depth_at(inner, i - name.len() - 1));
    }
    assert forall|i: int| 0 <= i < u.len() && #[trigger] depth_at(u, i) == 0 implies plain(
        u[i],
    ) by {
        if i < name.len() {
            assert(u[i] == name[i]);
        } else if i == name.len() {
            assert(u[i] == w[0]);
        }
    }
    assert(u[0] == name[0]);
    assert(u.last() == w.last());
    assert forall|i: int| 0 <= i < u.len() implies #[trigger] no_keyword_at(u, i) by {
        if i <= name.len() {
            lemma_headed_keyword(name, w, i, "IF"@, "if"@);
            lemma_headed_keyword(name, w, i, "THEN"@, "then"@);
            lemma_headed_keyword(name, w, i, "ELSE"@, "else"@);
        } else {
            assert(depth_at(u, i) >= 1);
        }
    }
}

proof fn lemma_headed_keyword(
    name: Seq<char>,
    w: Seq<char>,
    i: int,
    upper: Seq<char>,
    lower: Seq<char>,
)
    requires
        is_identifier(name),
        w.len() > 0,
        !is_letter(w[0]),
        !is_word_char(w[0]),
        keyword_pair(upper, lower),
        0 <= i <= name.len(),
    ensures
        !keyword_at(name + w, i, upper, lower),
{
    let u = name + w;
    let m = upper.len() as int;
    lemma_keyword_letters(upper, lower);
    if keyword_at(u, i, upper, lower) {
        if i == name.len() {
            assert(u[i + 0] == w[0]);
            assert(u[i + 0] == upper[0] || u[i + 0] == lower[0]);
            assert(is_letter(upper[0]) && is_letter(lower[0]));
        } else if i > 0 {
            assert(u[i - 1] == name[i - 1]);
            assert(is_word_char(name[i - 1]));
        } else if m < name.len() {
            assert(u[m] == name[m]);
            assert(is_word_char(name[m]));
        } else if m == name.len() {
            assert forall|j: int| 0 <= j < m implies name[0int + j] == upper[j] || name[0int + j]
                == lower[j] by {
                assert(u[0int + j] == name[j]);
            }
            lemma_whole_keyword(name, upper, lower);
        } else {
            let j = name.len() as int;
            assert(u[0int + j] == w[0]);
            assert(u[0int + j] == upper[j] || u[0int + j] == lower[j]);
            assert(is_letter(upper[j]) && is_letter(lower[j]));
        }
    }
}

} // verus!
