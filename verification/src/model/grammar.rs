//! The grammar of the expression language, as functions from text to trees.
//!
//! An expression is read after dropping the white space around it. A decimal
//! numeral is a constant. A text that starts with the word `IF` is a conditional.
//! Otherwise the text is split at the last operator that stands outside all
//! parentheses and brackets, taking the loosest level that has one: comparison,
//! then `+ -`, then `* /`, then `^`; a `+` or `-` at the very start does not split.
//! What cannot be split is a negation, a parenthesised expression, a name, a
//! function call or a subscripted name.

use vstd::prelude::*;
use crate::model::expression::{Operator, Subscript, Tree, UnaryOperator};
use crate::model::scan::{
    balanced, depth_at, is_identifier, is_number, is_opener, is_word, keyword_at, last_op,
    lemma_last_op, lemma_trim_bounds, trimmed_text, Level,
};

verus! {

/// Why a text is not an expression.
#[derive(Debug, Clone, Copy, PartialEq, Eq, Structural)]
pub enum ParseErrorKind {
    /// An operand, an argument or a subscript is missing.
    EmptyOperand,
    /// A parenthesis or bracket is not closed, or closed without being opened.
    UnmatchedParenthesis,
    /// An `IF` without its `THEN`.
    MissingThen,
    /// An `IF ... THEN` without its `ELSE`.
    MissingElse,
    /// The text is none of the forms of the language.
    Unrecognized,
}

/// A failed reading: the reason and the piece of text at fault.
pub struct Failure {
    pub kind: ParseErrorKind,
    pub text: Seq<char>,
}

pub open spec fn fail<T>(kind: ParseErrorKind, text: Seq<char>) -> Result<T, Failure> {
    Err(Failure { kind, text })
}

/// Whether the operator at `p` is written with a second character, `=`.
pub open spec fn two_chars(t: Seq<char>, p: int) -> bool {
    p + 1 < t.len() && t[p + 1] == '='
}

/// How many characters the operator of the given level at `p` takes.
pub open spec fn op_width(t: Seq<char>, level: Level, p: int) -> int {
    if level == Level::Comparison && two_chars(t, p) {
        2
    } else {
        1
    }
}

/// The operator that starts at `p`.
pub open spec fn operator_at(t: Seq<char>, p: int) -> Operator {
    let c = t[p];
    if c == '<' {
        if two_chars(t, p) {
            Operator::LessEqual
        } else {
            Operator::LessThan
        }
    } else if c == '>' {
        if two_chars(t, p) {
            Operator::GreaterEqual
        } else {
            Operator::GreaterThan
        }
    } else if c == '=' {
        Operator::Equal
    } else if c == '!' {
        Operator::NotEqual
    } else if c == '+' {
        Operator::Add
    } else if c == '-' {
        Operator::Subtract
    } else if c == '*' {
        Operator::Multiply
    } else if c == '/' {
        Operator::Divide
    } else {
        Operator::Power
    }
}

/// The level at which the text splits into two operands, if it does.
pub open spec fn split_level(t: Seq<char>) -> Option<Level> {
    let n = t.len() as int;
    if last_op(t, Level::Comparison, n) is Some {
        Some(Level::Comparison)
    } else if last_op(t, Level::Additive, n) is Some && last_op(t, Level::Additive, n) != Some(
        0int,
    ) {
        Some(Level::Additive)
    } else if last_op(t, Level::Multiplicative, n) is Some {
        Some(Level::Multiplicative)
    } else if last_op(t, Level::Power, n) is Some {
        Some(Level::Power)
    } else {
        None
    }
}

/// What a search for the `THEN` and `ELSE` of a conditional finds.
pub enum Keywords {
    Found { then_at: int, else_at: int },
    MissingThen,
    MissingElse,
}

/// Whether the given keyword stands at `i`, outside all parentheses and brackets.
pub open spec fn word_here(t: Seq<char>, i: int, upper: Seq<char>, lower: Seq<char>) -> bool {
    depth_at(t, i) == 0 && keyword_at(t, i, upper, lower)
}

/// Searches from `i` on for the `THEN` and the `ELSE` that belong to the `IF` at
/// the start of `t`. `pending` counts the inner `IF`s met so far whose `ELSE` is
/// still to come; an `ELSE` closes the innermost of them, and only with none
/// pending is it the one searched for. `then_at` is the `THEN` found so far.
pub open spec fn find_keywords(t: Seq<char>, i: int, pending: nat, then_at: Option<int>) -> Keywords
    decreases t.len() - i,
{
    if i < 0 || i >= t.len() {
        if then_at is None {
            Keywords::MissingThen
        } else {
            Keywords::MissingElse
        }
    } else if word_here(t, i, "IF"@, "if"@) {
        proof {
            reveal_strlit("IF");
        }
        find_keywords(t, i + 2, pending + 1, then_at)
    } else if word_here(t, i, "THEN"@, "then"@) {
        proof {
            reveal_strlit("THEN");
        }
        if pending == 0 && then_at is None {
            find_keywords(t, i + 4, pending, Some(i))
        } else {
            find_keywords(t, i + 4, pending, then_at)
        }
    } else if word_here(t, i, "ELSE"@, "else"@) {
        proof {
            reveal_strlit("ELSE");
        }
        if pending > 0 {
            find_keywords(t, i + 4, (pending - 1) as nat, then_at)
        } else {
            match then_at {
                Some(th) => Keywords::Found { then_at: th, else_at: i },
                None => Keywords::MissingThen,
            }
        }
    } else {
        find_keywords(t, i + 1, pending, then_at)
    }
}

/// The keywords found lie in the text, in order and apart.
pub proof fn lemma_find_keywords(t: Seq<char>, i: int, pending: nat, then_at: Option<int>)
    requires
        2 <= i,
        then_at matches Some(th) ==> 2 <= th && th + 4 <= i,
    ensures
        find_keywords(t, i, pending, then_at) matches Keywords::Found { then_at: th, else_at: el }
            ==> 2 <= th && th + 4 <= el && el + 4 <= t.len(),
    decreases t.len() - i,
{
    reveal_strlit("IF");
    reveal_strlit("THEN");
    reveal_strlit("ELSE");
    if i < 0 || i >= t.len() {
    } else if word_here(t, i, "IF"@, "if"@) {
        lemma_find_keywords(t, i + 2, pending + 1, then_at);
    } else if word_here(t, i, "THEN"@, "then"@) {
        if pending == 0 && then_at is None {
            lemma_find_keywords(t, i + 4, pending, Some(i));
        } else {
            lemma_find_keywords(t, i + 4, pending, then_at);
        }
    } else if word_here(t, i, "ELSE"@, "else"@) {
        if pending > 0 {
            lemma_find_keywords(t, i + 4, (pending - 1) as nat, then_at);
        }
    } else {
        lemma_find_keywords(t, i + 1, pending, then_at);
    }
}

/// The first position from `i` on that holds an opening parenthesis or bracket.
pub open spec fn first_opener(t: Seq<char>, i: int) -> int
    decreases t.len() - i,
{
    if 0 <= i < t.len() && !is_opener(t[i]) {
        first_opener(t, i + 1)
    } else {
        i
    }
}

pub proof fn lemma_first_opener(t: Seq<char>, i: int)
    requires
        0 <= i <= t.len(),
    ensures
        i <= first_opener(t, i) <= t.len(),
        first_opener(t, i) < t.len() ==> is_opener(t[first_opener(t, i)]),
        forall|k: int| i <= k < first_opener(t, i) ==> !is_opener(t[k]),
    decreases t.len() - i,
{
    if i < t.len() && !is_opener(t[i]) {
        lemma_first_opener(t, i + 1);
    }
}

/// Whether `close` is the closing form of `open`.
pub open spec fn closes(open: char, close: char) -> bool {
    (open == '(' && close == ')') || (open == '[' && close == ']')
}

/// Whether the opener at `p` is closed by the last character of the text, and
/// not before.
pub open spec fn encloses(t: Seq<char>, p: int) -> bool {
    &&& 0 <= p
    &&& p + 2 <= t.len()
    &&& closes(t[p], t.last())
    &&& forall|i: int| p < i < t.len() ==> depth_at(t, i) >= 1
}

/// One subscript: `*` for all elements, else the name of an element.
pub open spec fn subscript_of(piece: Seq<char>) -> Result<Subscript, Failure> {
    let t = trimmed_text(piece);
    if t.len() == 0 {
        fail(ParseErrorKind::EmptyOperand, t)
    } else if t == seq!['*'] {
        Ok(Subscript::Wildcard)
    } else if is_word(t) {
        Ok(Subscript::Element(t))
    } else {
        fail(ParseErrorKind::Unrecognized, t)
    }
}

/// The subscripts written in `s`, separated by commas.
pub open spec fn parsed_subscripts(s: Seq<char>) -> Result<Seq<Subscript>, Failure>
    decreases s.len(),
{
    let n = s.len() as int;
    match last_op(s, Level::Comma, n) {
        None => match subscript_of(s) {
            Ok(e) => Ok(seq![e]),
            Err(f) => Err(f),
        },
        Some(p) => {
            proof {
                lemma_last_op(s, Level::Comma, n);
            }
            match parsed_subscripts(s.subrange(0, p)) {
                Err(f) => Err(f),
                Ok(v) => match subscript_of(s.subrange(p + 1, n)) {
                    Ok(e) => Ok(v.push(e)),
                    Err(f) => Err(f),
                },
            }
        },
    }
}

/// The expression that the text `s` stands for, or why it is none.
pub open spec fn parsed(s: Seq<char>) -> Result<Tree, Failure>
    decreases s.len(), 3nat,
{
    let t = trimmed_text(s);
    let n = t.len() as int;
    if n == 0 {
        fail(ParseErrorKind::EmptyOperand, t)
    } else if !balanced(t) {
        fail(ParseErrorKind::UnmatchedParenthesis, t)
    } else if is_number(t) {
        Ok(Tree::Constant(t))
    } else if keyword_at(t, 0, "IF"@, "if"@) {
        proof {
            lemma_trim_bounds(s);
        }
        parsed_conditional(t)
    } else {
        match split_level(t) {
            Some(level) => {
                let p = last_op(t, level, n).unwrap();
                let w = op_width(t, level, p);
                proof {
                    lemma_trim_bounds(s);
                    lemma_last_op(t, level, n);
                }
                match parsed(t.subrange(0, p)) {
                    Err(f) => Err(f),
                    Ok(left) => match parsed(t.subrange(p + w, n)) {
                        Err(f) => Err(f),
                        Ok(right) => Ok(
                            Tree::Binary {
                                op: operator_at(t, p),
                                left: Box::new(left),
                                right: Box::new(right),
                            },
                        ),
                    },
                }
            },
            None => {
                proof {
                    lemma_trim_bounds(s);
                }
                parsed_atom(t)
            },
        }
    }
}

/// The conditional that `t` stands for, where `t` starts with the word `IF`.
pub open spec fn parsed_conditional(t: Seq<char>) -> Result<Tree, Failure>
    decreases t.len(), 2nat,
{
    let n = t.len() as int;
    match find_keywords(t, 2, 0, None) {
        Keywords::MissingThen => fail(ParseErrorKind::MissingThen, t),
        Keywords::MissingElse => fail(ParseErrorKind::MissingElse, t),
        Keywords::Found { then_at, else_at } => {
            proof {
                lemma_find_keywords(t, 2, 0, None);
            }
            match parsed(t.subrange(2, then_at)) {
                Err(f) => Err(f),
                Ok(condition) => match parsed(t.subrange(then_at + 4, else_at)) {
                    Err(f) => Err(f),
                    Ok(true_expr) => match parsed(t.subrange(else_at + 4, n)) {
                        Err(f) => Err(f),
                        Ok(false_expr) => Ok(
                            Tree::Conditional {
                                condition: Box::new(condition),
                                true_expr: Box::new(true_expr),
                                false_expr: Box::new(false_expr),
                            },
                        ),
                    },
                },
            }
        },
    }
}

/// The expression that `t` stands for, where `t` does not split at an operator.
pub open spec fn parsed_atom(t: Seq<char>) -> Result<Tree, Failure>
    decreases t.len(), 1nat,
{
    let n = t.len() as int;
    if n == 0 {
        fail(ParseErrorKind::EmptyOperand, t)
    } else if t[0] == '-' {
        match parsed(t.subrange(1, n)) {
            Ok(e) => Ok(Tree::Unary { op: UnaryOperator::Negate, expr: Box::new(e) }),
            Err(f) => Err(f),
        }
    } else if t[0] == '(' {
        if encloses(t, 0) {
            parsed(t.subrange(1, n - 1))
        } else {
            fail(ParseErrorKind::Unrecognized, t)
        }
    } else if is_identifier(t) {
        Ok(Tree::Variable(t))
    } else {
        let p = first_opener(t, 0);
        let name = trimmed_text(t.subrange(0, p));
        if p < n && is_identifier(name) && encloses(t, p) {
            let inner = t.subrange(p + 1, n - 1);
            proof {
                lemma_first_opener(t, 0);
            }
            if t[p] == '(' {
                match parsed_list(inner) {
                    Ok(args) => Ok(Tree::Call { name, args }),
                    Err(f) => Err(f),
                }
            } else {
                match parsed_subscripts(inner) {
                    Ok(subscripts) => Ok(Tree::Subscripted { name, subscripts }),
                    Err(f) => Err(f),
                }
            }
        } else {
            fail(ParseErrorKind::Unrecognized, t)
        }
    }
}

/// The arguments written in `s`: none when `s` is blank, else the expressions
/// between its commas.
pub open spec fn parsed_list(s: Seq<char>) -> Result<Seq<Tree>, Failure>
    decreases s.len(), 5nat,
{
    if trimmed_text(s).len() == 0 {
        Ok(Seq::empty())
    } else {
        parsed_items(s)
    }
}

/// The expressions written in `s`, separated by commas outside all parentheses
/// and brackets.
pub open spec fn parsed_items(s: Seq<char>) -> Result<Seq<Tree>, Failure>
    decreases s.len(), 4nat,
{
    let n = s.len() as int;
    match last_op(s, Level::Comma, n) {
        None => match parsed(s) {
            Ok(e) => Ok(seq![e]),
            Err(f) => Err(f),
        },
        Some(p) => {
            proof {
                lemma_last_op(s, Level::Comma, n);
            }
            match parsed_items(s.subrange(0, p)) {
                Err(f) => Err(f),
                Ok(v) => match parsed(s.subrange(p + 1, n)) {
                    Ok(e) => Ok(v.push(e)),
                    Err(f) => Err(f),
                },
            }
        },
    }
}

} // verus!
