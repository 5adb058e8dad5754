//! Reading an expression from text.

use vstd::prelude::*;
use vstd::slice::slice_subrange;
use vstd::string::*;
use crate::model::dimension::SubscriptRef;
use crate::model::expression::{
    subscript_view, subscript_views, tree_views, Expression, Operator, Subscript, Tree, UnaryOperator,
};
use crate::model::grammar::{
    closes, encloses, fail, find_keywords, first_opener, lemma_find_keywords, lemma_first_opener,
    op_width, operator_at, parsed, parsed_atom, parsed_conditional, parsed_items, parsed_list,
    parsed_subscripts, split_level, subscript_of, two_chars, word_here, Failure, Keywords,
    ParseErrorKind,
};
use crate::model::scan::{
    at_keyword, balanced, depth_at, find_last_op, identifier, is_balanced, is_opener, last_op,
    lemma_depth_range, lemma_last_op, lemma_trim_bounds, number, step_depth, to_chars, trim_bounds,
    trimmed_text, word, Level,
};
use crate::text::{concat3, text_of};

verus! {

/// A text that could not be read as an expression: the reason, and the piece at fault.
#[derive(Debug, Clone)]
pub struct ParseError {
    pub kind: ParseErrorKind,
    pub text: String,
}

impl View for ParseError {
    type V = Failure;

    open spec fn view(&self) -> Failure {
        Failure { kind: self.kind, text: self.text@ }
    }
}

/// The reason of a failure in words.
pub open spec fn kind_text(kind: ParseErrorKind) -> Seq<char> {
    match kind {
        ParseErrorKind::EmptyOperand => "empty operand"@,
        ParseErrorKind::UnmatchedParenthesis => "unmatched parenthesis"@,
        ParseErrorKind::MissingThen => "IF without THEN"@,
        ParseErrorKind::MissingElse => "IF without ELSE"@,
        ParseErrorKind::Unrecognized => "unrecognized construct"@,
    }
}

impl ParseError {
    /// The failure in words: the reason, then the piece of text in quotes.
    pub fn message(&self) -> (r: String)
        ensures
            r@ == kind_text(self.kind) + " in '"@ + self.text@ + "'"@,
    {
        let reason = match self.kind {
            ParseErrorKind::EmptyOperand => "empty operand",
            ParseErrorKind::UnmatchedParenthesis => "unmatched parenthesis",
            ParseErrorKind::MissingThen => "IF without THEN",
            ParseErrorKind::MissingElse => "IF without ELSE",
            ParseErrorKind::Unrecognized => "unrecognized construct",
        };
        let mut r = concat3(reason, " in '", self.text.as_str());
        r.append("'");
        r
    }
}

/// What a reading gave, as mathematical values.
pub open spec fn outcome(r: Result<Expression, ParseError>) -> Result<Tree, Failure> {
    match r {
        Ok(e) => Ok(e@),
        Err(f) => Err(f@),
    }
}

/// What a reading of a list gave, as mathematical values.
pub open spec fn list_outcome(r: Result<Vec<Expression>, ParseError>) -> Result<Seq<Tree>, Failure> {
    match r {
        Ok(v) => Ok(tree_views(v@)),
        Err(f) => Err(f@),
    }
}

/// What a reading of subscripts gave, as mathematical values.
pub open spec fn subscripts_outcome(r: Result<Vec<SubscriptRef>, ParseError>) -> Result<
    Seq<Subscript>,
    Failure,
> {
    match r {
        Ok(v) => Ok(subscript_views(v@)),
        Err(f) => Err(f@),
    }
}

fn failure(kind: ParseErrorKind, t: &[char]) -> (r: ParseError)
    ensures
        r@ == (Failure { kind, text: t@ }),
{
    ParseError { kind, text: text_of(t) }
}

fn has_second(t: &[char], p: usize) -> (r: bool)
    requires
        p < t@.len(),
    ensures
        r == two_chars(t@, p as int),
{
    t.len() - p > 1 && t[p + 1] == '='
}

fn read_operator(t: &[char], p: usize) -> (r: Operator)
    requires
        p < t@.len(),
    ensures
        r == operator_at(t@, p as int),
{
    let c = t[p];
    if c == '<' {
        if has_second(t, p) {
            Operator::LessEqual
        } else {
            Operator::LessThan
        }
    } else if c == '>' {
        if has_second(t, p) {
            Operator::GreaterEqual
        } else {
            Operator::GreaterThan
        }
    } else if c == '=' {
        Operator::Equal
    } else if c == '!' {
        Operator::NotEqual
    } else if c == '+' {
        Operator::Add
    } else if c == '-' {
        Operator::Subtract
    } else if c == '*' {
        Operator::Multiply
    } else if c == '/' {
        Operator::Divide
    } else {
        Operator::Power
    }
}

/// Where the text splits into two operands: the position of the operator, its
/// width and its level.
fn find_split(t: &[char]) -> (r: Option<(usize, usize, Level)>)
    ensures
        match r {
            Some((p, w, level)) => split_level(t@) == Some(level) && last_op(
                t@,
                level,
                t@.len() as int,
            ) == Some(p as int) && w == op_width(t@, level, p as int) && p + w <= t@.len(),
            None => split_level(t@) is None,
        },
{
    if let Some(p) = find_last_op(t, Level::Comparison) {
        let w: usize = if has_second(t, p) {
            2
        } else {
            1
        };
        return Some((p, w, Level::Comparison));
    }
    if let Some(p) = find_last_op(t, Level::Additive) {
        if p != 0 {
            return Some((p, 1, Level::Additive));
        }
    }
    if let Some(p) = find_last_op(t, Level::Multiplicative) {
        return Some((p, 1, Level::Multiplicative));
    }
    if let Some(p) = find_last_op(t, Level::Power) {
        return Some((p, 1, Level::Power));
    }
    None
}

/// What the search for `THEN` and `ELSE` found.
enum Search {
    Found(usize, usize),
    MissingThen,
    MissingElse,
}

/// The depth at `to`, given the depth at `from`.
fn advance_depth(t: &[char], depth: i128, from: usize, to: usize) -> (r: i128)
    requires
        from <= to <= t@.len(),
        depth == depth_at(t@, from as int),
    ensures
        r == depth_at(t@, to as int),
{
    let mut d = depth;
    let mut i = from;
    while i < to
        invariant
            from <= i <= to <= t@.len(),
            d == depth_at(t@, i as int),
        decreases to - i,
    {
        proof {
            lemma_depth_range(t@, i as int);
        }
        d = step_depth(d, t[i]);
        i += 1;
    }
    d
}

/// Finds the `THEN` and the `ELSE` of the conditional that starts `t`.
fn locate_keywords(t: &[char]) -> (r: Search)
    requires
        t@.len() >= 2,
    ensures
        match r {
            Search::Found(th, el) => find_keywords(t@, 2, 0, None) == (Keywords::Found {
                then_at: th as int,
                else_at: el as int,
            }) && 2 <= th && th + 4 <= el && el + 4 <= t@.len(),
            Search::MissingThen => find_keywords(t@, 2, 0, None) == Keywords::MissingThen,
            Search::MissingElse => find_keywords(t@, 2, 0, None) == Keywords::MissingElse,
        },
{
    let n = t.len();
    let mut pending: usize = 0;
    let mut then_at: Option<usize> = None;
    let mut i: usize = 2;
    let mut depth: i128 = advance_depth(t, 0, 0, 2);
    proof {
        reveal_strlit("IF");
        reveal_strlit("if");
        reveal_strlit("THEN");
        reveal_strlit("then");
        reveal_strlit("ELSE");
        reveal_strlit("else");
        lemma_find_keywords(t@, 2, 0, None);
    }
    while i < n
        invariant
            n == t@.len(),
            2 <= i <= n,
            pending <= i,
            depth == depth_at(t@, i as int),
            "IF"@.len() == 2 && "if"@.len() == 2,
            "THEN"@.len() == 4 && "then"@.len() == 4,
            "ELSE"@.len() == 4 && "else"@.len() == 4,
            find_keywords(t@, 2, 0, None) == find_keywords(
                t@,
                i as int,
                pending as nat,
                match then_at {
                    Some(th) => Some(th as int),
                    None => None,
                },
            ),
            find_keywords(t@, 2, 0, None) matches Keywords::Found { then_at: th, else_at: el }
                ==> 2 <= th && th + 4 <= el && el + 4 <= t@.len(),
        decreases n - i,
    {
        if depth == 0 && at_keyword(t, i, "IF", "if") {
            depth = advance_depth(t, depth, i, i + 2);
            pending += 1;
            i += 2;
        } else if depth == 0 && at_keyword(t, i, "THEN", "then") {
            depth = advance_depth(t, depth, i, i + 4);
            if pending == 0 && then_at.is_none() {
                then_at = Some(i);
            }
            i += 4;
        } else if depth == 0 && at_keyword(t, i, "ELSE", "else") {
            if pending > 0 {
                depth = advance_depth(t, depth, i, i + 4);
                pending -= 1;
                i += 4;
            } else {
                match then_at {
                    Some(th) => {
                        return Search::Found(th, i);
                    },
                    None => {
                        return Search::MissingThen;
                    },
                }
            }
        } else {
            depth = advance_depth(t, depth, i, i + 1);
            i += 1;
        }
    }
    if then_at.is_none() {
        Search::MissingThen
    } else {
        Search::MissingElse
    }
}

/// The first position that holds an opening parenthesis or bracket.
fn find_opener(t: &[char]) -> (r: usize)
    ensures
        r == first_opener(t@, 0),
        r <= t@.len(),
{
    let n = t.len();
    let mut i: usize = 0;
    while i < n && !(t[i] == '(' || t[i] == '[')
        invariant
            n == t@.len(),
            i <= n,
            first_opener(t@, 0) == first_opener(t@, i as int),
        decreases n - i,
    {
        i += 1;
    }
    i
}

/// Whether the opener at `p` is closed by the last character, and not before.
fn closes_at_end(t: &[char], p: usize) -> (r: bool)
    requires
        p < t@.len(),
    ensures
        r == encloses(t@, p as int),
{
    let n = t.len();
    if n - p < 2 {
        return false;
    }
    let open = t[p];
    let close = t[n - 1];
    if !((open == '(' && close == ')') || (open == '[' && close == ']')) {
        return false;
    }
    let mut depth: i128 = advance_depth(t, 0, 0, p + 1);
    let mut i: usize = p + 1;
    while i < n
        invariant
            n == t@.len(),
            p < i <= n,
            depth == depth_at(t@, i as int),
            forall|k: int| p < k < i ==> depth_at(t@, k) >= 1,
        decreases n - i,
    {
        if depth < 1 {
            return false;
        }
        depth = advance_depth(t, depth, i, i + 1);
        i += 1;
    }
    true
}

/// Reads one subscript.
fn parse_subscript(piece: &[char]) -> (r: Result<SubscriptRef, ParseError>)
    ensures
        match r {
            Ok(s) => subscript_of(piece@) == Ok::<Subscript, Failure>(subscript_view(s)),
            Err(f) => subscript_of(piece@) == Err::<Subscript, Failure>(f@),
        },
{
    let (lo, hi) = trim_bounds(piece);
    let t = slice_subrange(piece, lo, hi);
    if t.len() == 0 {
        Err(failure(ParseErrorKind::EmptyOperand, t))
    } else if t.len() == 1 && t[0] == '*' {
        assert(t@ =~= seq!['*']);
        Ok(SubscriptRef::Wildcard)
    } else if word(t) {
        assert(t@ != seq!['*']) by {
            if t@.len() == 1 {
                assert(seq!['*'][0] == '*');
            }
        }
        Ok(SubscriptRef::Element(text_of(t)))
    } else {
        assert(t@ != seq!['*']) by {
            if t@.len() == 1 {
                assert(seq!['*'][0] == '*');
            }
        }
        Err(failure(ParseErrorKind::Unrecognized, t))
    }
}

/// Reads the subscripts written in `s`, separated by commas.
fn parse_subscripts(s: &[char]) -> (r: Result<Vec<SubscriptRef>, ParseError>)
    ensures
        subscripts_outcome(r) == parsed_subscripts(s@),
    decreases s@.len(),
{
    let n = s.len();
    match find_last_op(s, Level::Comma) {
        None => match parse_subscript(s) {
            Ok(e) => {
                let mut v: Vec<SubscriptRef> = Vec::new();
                v.push(e);
                assert(subscript_views(v@) =~= seq![subscript_view(e)]);
                Ok(v)
            },
            Err(f) => Err(f),
        },
        Some(p) => {
            let mut v = match parse_subscripts(slice_subrange(s, 0, p)) {
                Ok(v) => v,
                Err(f) => {
                    return Err(f);
                },
            };
            match parse_subscript(slice_subrange(s, p + 1, n)) {
                Ok(e) => {
                    let ghost before = v@;
                    v.push(e);
                    assert(subscript_views(v@) =~= subscript_views(before).push(subscript_view(e)));
                    Ok(v)
                },
                Err(f) => Err(f),
            }
        },
    }
}

/// Reads the expression written in `s`.
pub fn parse_chars(s: &[char]) -> (r: Result<Expression, ParseError>)
    ensures
        outcome(r) == parsed(s@),
    decreases s@.len(), 3nat,
{
    let (lo, hi) = trim_bounds(s);
    let t = slice_subrange(s, lo, hi);
    let n = t.len();
    proof {
        lemma_trim_bounds(s@);
        reveal_strlit("IF");
        reveal_strlit("if");
    }
    if n == 0 {
        return Err(failure(ParseErrorKind::EmptyOperand, t));
    }
    if !is_balanced(t) {
        return Err(failure(ParseErrorKind::UnmatchedParenthesis, t));
    }
    if number(t) {
        return Ok(Expression::Constant(text_of(t)));
    }
    if at_keyword(t, 0, "IF", "if") {
        return parse_conditional(t);
    }
    match find_split(t) {
        Some((p, w, level)) => {
            let left = match parse_chars(slice_subrange(t, 0, p)) {
                Ok(e) => e,
                Err(f) => {
                    return Err(f);
                },
            };
            let right = match parse_chars(slice_subrange(t, p + w, n)) {
                Ok(e) => e,
                Err(f) => {
                    return Err(f);
                },
            };
            Ok(
                Expression::BinaryOp {
                    op: read_operator(t, p),
                    left: Box::new(left),
                    right: Box::new(right),
                },
            )
        },
        None => parse_atom(t),
    }
}

/// Reads the conditional written in `t`, which starts with the word `IF`.
fn parse_conditional(t: &[char]) -> (r: Result<Expression, ParseError>)
    requires
        t@.len() >= 2,
    ensures
        outcome(r) == parsed_conditional(t@),
    decreases t@.len(), 2nat,
{
    let n = t.len();
    match locate_keywords(t) {
        Search::MissingThen => Err(failure(ParseErrorKind::MissingThen, t)),
        Search::MissingElse => Err(failure(ParseErrorKind::MissingElse, t)),
        Search::Found(th, el) => {
            let condition = match parse_chars(slice_subrange(t, 2, th)) {
                Ok(e) => e,
                Err(f) => {
                    return Err(f);
                },
            };
            let true_expr = match parse_chars(slice_subrange(t, th + 4, el)) {
                Ok(e) => e,
                Err(f) => {
                    return Err(f);
                },
            };
            let false_expr = match parse_chars(slice_subrange(t, el + 4, n)) {
                Ok(e) => e,
                Err(f) => {
                    return Err(f);
                },
            };
            Ok(
                Expression::Conditional {
                    condition: Box::new(condition),
                    true_expr: Box::new(true_expr),
                    false_expr: Box::new(false_expr),
                },
            )
        },
    }
}

/// Reads the expression written in `t`, which does not split at an operator.
fn parse_atom(t: &[char]) -> (r: Result<Expression, ParseError>)
    ensures
        outcome(r) == parsed_atom(t@),
    decreases t@.len(), 1nat,
{
    let n = t.len();
    if n == 0 {
        return Err(failure(ParseErrorKind::EmptyOperand, t));
    }
    if t[0] == '-' {
        return match parse_chars(slice_subrange(t, 1, n)) {
            Ok(e) => Ok(Expression::UnaryOp { op: UnaryOperator::Negate, expr: Box::new(e) }),
            Err(f) => Err(f),
        };
    }
    if t[0] == '(' {
        if closes_at_end(t, 0) {
            return parse_chars(slice_subrange(t, 1, n - 1));
        } else {
            return Err(failure(ParseErrorKind::Unrecognized, t));
        }
    }
    if identifier(t) {
        return Ok(Expression::Variable(text_of(t)));
    }
    let p = find_opener(t);
    let head = slice_subrange(t, 0, p);
    let (lo, hi) = trim_bounds(head);
    let name = slice_subrange(head, lo, hi);
    if p < n && identifier(name) && closes_at_end(t, p) {
        let inner = slice_subrange(t, p + 1, n - 1);
        if t[p] == '(' {
            match parse_list(inner) {
                Ok(args) => {
                    let r = Expression::FunctionCall { name: text_of(name), args };
                    assert(r@->args =~= tree_views(args@));
                    Ok(r)
                },
                Err(f) => Err(f),
            }
        } else {
            match parse_subscripts(inner) {
                Ok(subscripts) => Ok(
                    Expression::SubscriptedVariable { name: text_of(name), subscripts },
                ),
                Err(f) => Err(f),
            }
        }
    } else {
        Err(failure(ParseErrorKind::Unrecognized, t))
    }
}

/// Reads the arguments written in `s`.
fn parse_list(s: &[char]) -> (r: Result<Vec<Expression>, ParseError>)
    ensures
        list_outcome(r) == parsed_list(s@),
    decreases s@.len(), 5nat,
{
    let (lo, hi) = trim_bounds(s);
    if hi - lo == 0 {
        let v: Vec<Expression> = Vec::new();
        assert(tree_views(v@) =~= Seq::<Tree>::empty());
        proof {
            lemma_trim_bounds(s@);
        }
        Ok(v)
    } else {
        proof {
            lemma_trim_bounds(s@);
        }
        parse_items(s)
    }
}

/// Reads the expressions written in `s`, separated by commas.
fn parse_items(s: &[char]) -> (r: Result<Vec<Expression>, ParseError>)
    ensures
        list_outcome(r) == parsed_items(s@),
    decreases s@.len(), 4nat,
{
    let n = s.len();
    match find_last_op(s, Level::Comma) {
        None => match parse_chars(s) {
            Ok(e) => {
                let ghost tree = e@;
                let mut v: Vec<Expression> = Vec::new();
                v.push(e);
                assert(tree_views(v@) =~= seq![tree]);
                Ok(v)
            },
            Err(f) => Err(f),
        },
        Some(p) => {
            let mut v = match parse_items(slice_subrange(s, 0, p)) {
                Ok(v) => v,
                Err(f) => {
                    return Err(f);
                },
            };
            match parse_chars(slice_subrange(s, p + 1, n)) {
                Ok(e) => {
                    let ghost before = v@;
                    let ghost tree = e@;
                    v.push(e);
                    assert(tree_views(v@) =~= tree_views(before).push(tree));
                    Ok(v)
                },
                Err(f) => Err(f),
            }
        },
    }
}

impl Expression {
    /// Reads an expression from text.
    pub fn parse(s: &str) -> (r: Result<Expression, ParseError>)
        ensures
            outcome(r) == parsed(s@),
    {
        let chars = to_chars(s);
        parse_chars(chars.as_slice())
    }
}

} // verus!
