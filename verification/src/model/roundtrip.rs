//! Writing an expression out and reading it back gives the same expression.

use vstd::prelude::*;
use crate::model::expression::{
    op_text, printed, printed_all, subscript_text, subscript_texts, Operator, Subscript, Tree,
    UnaryOperator,
};
use crate::model::grammar::{
    closes, encloses, fail, find_keywords, first_opener, lemma_first_opener, op_width,
    operator_at, parsed, parsed_atom, parsed_conditional, parsed_items, parsed_list,
    parsed_subscripts, split_level, subscript_of, two_chars, word_here, Failure, Keywords,
    ParseErrorKind,
};
use crate::model::scan::{
    balanced, depth_at, is_closer, is_digit, is_identifier, is_letter, is_number, is_opener,
    is_space, is_word, is_word_char, keyword_at, last_op, lemma_last_op, matches_word, op_at,
    skip_digits, trimmed_text, Level,
};
use crate::model::sealed::{
    lemma_embedded_quiet, lemma_keyword_letters, lemma_no_split, lemma_number_chars,
    lemma_sealed_headed, lemma_sealed_run, lemma_sealed_wrapped, no_keyword_at, plain, sealed,
};
use crate::model::text_laws::{
    blank, flat, lemma_balanced_concat, lemma_depth_concat, lemma_flat_balanced,
    lemma_flat_depth, lemma_trim_padded, lemma_trim_tight, lemma_wrapped_depth, tight, wrapped,
};
use crate::text::joined;

verus! {

/// Whether a subscript is one that reading gives: all elements, or one element
/// under a name.
pub open spec fn well_formed_subscript(s: Subscript) -> bool {
    match s {
        Subscript::Wildcard => true,
        Subscript::Element(e) => is_word(e),
        Subscript::Dimension(_) => false,
    }
}

/// Whether an expression is one that reading gives: its constants are
/// numerals, its names are names, and a subscripted name has subscripts.
pub open spec fn well_formed(t: Tree) -> bool
    decreases t,
{
    match t {
        Tree::Constant(text) => is_number(text),
        Tree::Variable(name) => is_identifier(name),
        Tree::Subscripted { name, subscripts } => is_identifier(name) && subscripts.len() >= 1
            && forall|i: int|
            0 <= i < subscripts.len() ==> well_formed_subscript(#[trigger] subscripts[i]),
        Tree::Binary { op, left, right } => well_formed(*left) && well_formed(*right),
        Tree::Unary { op, expr } => well_formed(*expr),
        Tree::Call { name, args } => is_identifier(name) && forall|i: int|
            0 <= i < args.len() ==> well_formed(#[trigger] args[i]),
        Tree::Conditional { condition, true_expr, false_expr } => well_formed(*condition)
            && well_formed(*true_expr) && well_formed(*false_expr),
    }
}

/// How an operator is written, character by character.
pub open spec fn op_chars(op: Operator) -> Seq<char> {
    match op {
        Operator::Add => seq!['+'],
        Operator::Subtract => seq!['-'],
        Operator::Multiply => seq!['*'],
        Operator::Divide => seq!['/'],
        Operator::Power => seq!['^'],
        Operator::GreaterThan => seq!['>'],
        Operator::LessThan => seq!['<'],
        Operator::GreaterEqual => seq!['>', '='],
        Operator::LessEqual => seq!['<', '='],
        Operator::Equal => seq!['=', '='],
        Operator::NotEqual => seq!['!', '='],
    }
}

/// The level at which an operator splits a text.
pub open spec fn level_of(op: Operator) -> Level {
    match op {
        Operator::Add | Operator::Subtract => Level::Additive,
        Operator::Multiply | Operator::Divide => Level::Multiplicative,
        Operator::Power => Level::Power,
        _ => Level::Comparison,
    }
}

pub proof fn lemma_op_text(op: Operator)
    ensures
        op_text(op) == op_chars(op),
{
    reveal_strlit("+");
    reveal_strlit("-");
    reveal_strlit("*");
    reveal_strlit("/");
    reveal_strlit("^");
    reveal_strlit(">");
    reveal_strlit("<");
    reveal_strlit(">=");
    reveal_strlit("<=");
    reveal_strlit("==");
    reveal_strlit("!=");
    assert(op_text(op) =~= op_chars(op));
}

/// Two operands with an operator between them.
pub open spec fn binary_text(left: Seq<char>, op: Operator, right: Seq<char>) -> Seq<char> {
    left + seq![' '] + op_chars(op) + seq![' '] + right
}

/// An operand with a minus sign before it.
pub open spec fn negation_text(operand: Seq<char>) -> Seq<char> {
    seq!['-'] + operand
}

/// A condition and two branches with the keywords between them.
pub open spec fn conditional_text(c: Seq<char>, a: Seq<char>, b: Seq<char>) -> Seq<char> {
    seq!['I', 'F', ' '] + c + seq![' ', 'T', 'H', 'E', 'N', ' '] + a + seq![
        ' ',
        'E',
        'L',
        'S',
        'E',
        ' ',
    ] + b
}

/// The pieces with a comma and a space between neighbours.
pub open spec fn listed(parts: Seq<Seq<char>>) -> Seq<char>
    decreases parts.len(),
{
    if parts.len() == 0 {
        Seq::empty()
    } else if parts.len() == 1 {
        parts[0]
    } else {
        listed(parts.drop_last()) + seq![',', ' '] + parts.last()
    }
}

pub proof fn lemma_listed(parts: Seq<Seq<char>>)
    ensures
        joined(parts, ", "@) == listed(parts),
    decreases parts.len(),
{
    reveal_strlit(", ");
    assert(", "@ =~= seq![',', ' ']);
    if parts.len() > 1 {
        lemma_listed(parts.drop_last());
    }
}

/// The written form of each kind of expression, by its parts.
pub proof fn lemma_printed_shape(t: Tree)
    ensures
        match t {
            Tree::Constant(text) => printed(t) == text,
            Tree::Variable(name) => printed(t) == name,
            Tree::Subscripted { name, subscripts } => printed(t) == name + wrapped(
                '[',
                listed(subscript_texts(subscripts)),
                ']',
            ),
            Tree::Binary { op, left, right } => printed(t) == wrapped(
                '(',
                binary_text(printed(*left), op, printed(*right)),
                ')',
            ),
            Tree::Unary { op, expr } => printed(t) == wrapped(
                '(',
                negation_text(printed(*expr)),
                ')',
            ),
            Tree::Call { name, args } => printed(t) == name + wrapped(
                '(',
                listed(printed_all(args)),
                ')',
            ),
            Tree::Conditional { condition, true_expr, false_expr } => printed(t) == wrapped(
                '(',
                conditional_text(printed(*condition), printed(*true_expr), printed(*false_expr)),
                ')',
            ),
        },
{
    reveal_strlit("(");
    reveal_strlit(")");
    reveal_strlit("[");
    reveal_strlit("]");
    reveal_strlit(" ");
    reveal_strlit("(-");
    reveal_strlit("(IF ");
    reveal_strlit(" THEN ");
    reveal_strlit(" ELSE ");
    match t {
        Tree::Constant(text) => {},
        Tree::Variable(name) => {},
        Tree::Subscripted { name, subscripts } => {
            lemma_listed(subscript_texts(subscripts));
            assert(printed(t) =~= name + wrapped('[', listed(subscript_texts(subscripts)), ']'));
        },
        Tree::Binary { op, left, right } => {
            lemma_op_text(op);
            assert(printed(t) =~= wrapped(
                '(',
                binary_text(printed(*left), op, printed(*right)),
                ')',
            ));
        },
        Tree::Unary { op, expr } => {
            assert(printed(t) =~= wrapped('(', negation_text(printed(*expr)), ')'));
        },
        Tree::Call { name, args } => {
            lemma_listed(printed_all(args));
            assert(printed(t) =~= name + wrapped('(', listed(printed_all(args)), ')'));
        },
        Tree::Conditional { condition, true_expr, false_expr } => {
            assert(printed(t) =~= wrapped(
                '(',
                conditional_text(printed(*condition), printed(*true_expr), printed(*false_expr)),
                ')',
            ));
        },
    }
}

/// Balanced pieces in a list make a balanced text.
pub proof fn lemma_listed_balanced(parts: Seq<Seq<char>>)
    requires
        forall|i: int| 0 <= i < parts.len() ==> balanced(#[trigger] parts[i]),
    ensures
        balanced(listed(parts)),
    decreases parts.len(),
{
    if parts.len() == 0 {
        assert(flat(listed(parts)));
        lemma_flat_balanced(listed(parts));
    } else if parts.len() > 1 {
        let front = parts.drop_last();
        assert forall|i: int| 0 <= i < front.len() implies balanced(#[trigger] front[i]) by {
            assert(front[i] == parts[i]);
        }
        lemma_listed_balanced(front);
        let sep = seq![',', ' '];
        assert(flat(sep));
        lemma_flat_balanced(sep);
        lemma_balanced_concat(listed(front), sep);
        lemma_balanced_concat(listed(front) + sep, parts.last());
    }
}

/// Two balanced operands with an operator between them are balanced.
pub proof fn lemma_binary_balanced(left: Seq<char>, op: Operator, right: Seq<char>)
    requires
        balanced(left),
        balanced(right),
    ensures
        balanced(binary_text(left, op, right)),
{
    let space = seq![' '];
    assert(flat(space));
    assert(flat(op_chars(op)));
    lemma_flat_balanced(space);
    lemma_flat_balanced(op_chars(op));
    lemma_balanced_concat(left, space);
    lemma_balanced_concat(left + space, op_chars(op));
    lemma_balanced_concat(left + space + op_chars(op), space);
    lemma_balanced_concat(left + space + op_chars(op) + space, right);
}

pub proof fn lemma_negation_balanced(operand: Seq<char>)
    requires
        balanced(operand),
    ensures
        balanced(negation_text(operand)),
{
    let minus = seq!['-'];
    assert(flat(minus));
    lemma_flat_balanced(minus);
    lemma_balanced_concat(minus, operand);
}

pub proof fn lemma_conditional_balanced(c: Seq<char>, a: Seq<char>, b: Seq<char>)
    requires
        balanced(c),
        balanced(a),
        balanced(b),
    ensures
        balanced(conditional_text(c, a, b)),
{
    let k1 = seq!['I', 'F', ' '];
    let k2 = seq![' ', 'T', 'H', 'E', 'N', ' '];
    let k3 = seq![' ', 'E', 'L', 'S', 'E', ' '];
    assert(flat(k1));
    assert(flat(k2));
    assert(flat(k3));
    lemma_flat_balanced(k1);
    lemma_flat_balanced(k2);
    lemma_flat_balanced(k3);
    lemma_balanced_concat(k1, c);
    lemma_balanced_concat(k1 + c, k2);
    lemma_balanced_concat(k1 + c + k2, a);
    lemma_balanced_concat(k1 + c + k2 + a, k3);
    lemma_balanced_concat(k1 + c + k2 + a + k3, b);
}

/// How a well-formed subscript is written: `*`, or a word.
pub proof fn lemma_subscript_text(s: Subscript)
    requires
        well_formed_subscript(s),
    ensures
        subscript_text(s) == seq!['*'] || is_word(subscript_text(s)),
        flat(subscript_text(s)),
        tight(subscript_text(s)),
        s is Wildcard <==> subscript_text(s) == seq!['*'],
{
    reveal_strlit("*");
    assert("*"@ =~= seq!['*']);
    match s {
        Subscript::Element(e) => {
            assert(is_word_char(e[0]));
            assert(e != seq!['*']) by {
                if e == seq!['*'] {
                    assert(e[0] == '*');
                }
            }
        },
        _ => {},
    }
}

/// The written form of a well-formed expression is sealed.
pub proof fn lemma_printed_sealed(t: Tree)
    requires
        well_formed(t),
    ensures
        sealed(printed(t)),
    decreases t,
{
    lemma_printed_shape(t);
    match t {
        Tree::Constant(text) => {
            lemma_number_chars(text);
            lemma_sealed_run(text);
        },
        Tree::Variable(name) => {
            lemma_sealed_run(name);
        },
        Tree::Subscripted { name, subscripts } => {
            let parts = subscript_texts(subscripts);
            assert forall|i: int| 0 <= i < parts.len() implies balanced(#[trigger] parts[i]) by {
                lemma_subscript_text(subscripts[i]);
                lemma_flat_balanced(parts[i]);
            }
            lemma_listed_balanced(parts);
            lemma_sealed_headed(name, '[', listed(parts), ']');
        },
        Tree::Binary { op, left, right } => {
            lemma_printed_sealed(*left);
            lemma_printed_sealed(*right);
            lemma_binary_balanced(printed(*left), op, printed(*right));
            lemma_sealed_wrapped('(', binary_text(printed(*left), op, printed(*right)), ')');
        },
        Tree::Unary { op, expr } => {
            lemma_printed_sealed(*expr);
            lemma_negation_balanced(printed(*expr));
            lemma_sealed_wrapped('(', negation_text(printed(*expr)), ')');
        },
        Tree::Call { name, args } => {
            let parts = printed_all(args);
            assert forall|i: int| 0 <= i < parts.len() implies balanced(#[trigger] parts[i]) by {
                lemma_printed_sealed(args[i]);
            }
            lemma_listed_balanced(parts);
            lemma_sealed_headed(name, '(', listed(parts), ')');
        },
        Tree::Conditional { condition, true_expr, false_expr } => {
            lemma_printed_sealed(*condition);
            lemma_printed_sealed(*true_expr);
            lemma_printed_sealed(*false_expr);
            lemma_conditional_balanced(
                printed(*condition),
                printed(*true_expr),
                printed(*false_expr),
            );
            lemma_sealed_wrapped(
                '(',
                conditional_text(printed(*condition), printed(*true_expr), printed(*false_expr)),
                ')',
            );
        },
    }
}

/// A text with a character that is neither a digit nor a decimal point is no numeral.
pub proof fn lemma_not_number(u: Seq<char>, i: int)
    requires
        0 <= i < u.len(),
        !is_digit(u[i]),
        u[i] != '.',
    ensures
        !is_number(u),
{
    if is_number(u) {
        lemma_number_chars(u);
    }
}

/// A sealed text does not start with the keyword `IF`.
pub proof fn lemma_sealed_not_if(p: Seq<char>)
    requires
        sealed(p),
    ensures
        !keyword_at(p, 0, "IF"@, "if"@),
{
    assert(no_keyword_at(p, 0));
    assert(depth_at(p, 0) == 0);
}

/// What a text reads as depends on the text without the white space around it only.
pub proof fn lemma_same_trim(s1: Seq<char>, s2: Seq<char>)
    requires
        trimmed_text(s1) == trimmed_text(s2),
    ensures
        parsed(s1) == parsed(s2),
{
}

/// A tight text with a space on either side reads as the text itself.
pub proof fn lemma_parse_padded(p: Seq<char>)
    requires
        tight(p),
    ensures
        parsed(p + seq![' ']) == parsed(p),
        parsed(seq![' '] + p) == parsed(p),
        parsed(seq![' '] + p + seq![' ']) == parsed(p),
{
    let e = Seq::<char>::empty();
    let sp = seq![' '];
    assert(blank(e));
    assert(blank(sp));
    lemma_trim_tight(p);
    lemma_trim_padded(e, p, sp);
    assert(e + p + sp =~= p + sp);
    lemma_same_trim(p + sp, p);
    lemma_trim_padded(sp, p, e);
    assert(sp + p + e =~= sp + p);
    lemma_same_trim(sp + p, p);
    lemma_trim_padded(sp, p, sp);
    lemma_same_trim(sp + p + sp, p);
}

/// A balanced text in parentheses reads as the text itself.
pub proof fn lemma_parse_wrapped(inner: Seq<char>)
    requires
        balanced(inner),
    ensures
        parsed(wrapped('(', inner, ')')) == parsed(inner),
{
    let w = wrapped('(', inner, ')');
    let n = w.len() as int;
    lemma_sealed_wrapped('(', inner, ')');
    lemma_wrapped_depth('(', inner, ')');
    lemma_trim_tight(w);
    lemma_not_number(w, 0);
    lemma_sealed_not_if(w);
    lemma_no_split(w);
    assert(encloses(w, 0)) by {
        assert forall|i: int| 0 < i < w.len() implies depth_at(w, i) >= 1 by {
            assert(depth_at(w, i) == 1 + depth_at(inner, i - 1));
        }
    }
    assert(w.subrange(1, n - 1) == inner);
    assert(parsed_atom(w) == parsed(inner));
    assert(parsed(w) == parsed_atom(w));
}

/// A name followed by a balanced text in parentheses or brackets: what the
/// reading of it goes through.
pub proof fn lemma_parse_headed(name: Seq<char>, open: char, inner: Seq<char>, close: char)
    requires
        is_identifier(name),
        closes(open, close),
        balanced(inner),
    ensures
        open == '(' ==> parsed(name + wrapped(open, inner, close)) == match parsed_list(inner) {
            Ok(args) => Ok(Tree::Call { name, args }),
            Err(f) => Err(f),
        },
        open == '[' ==> parsed(name + wrapped(open, inner, close)) == match parsed_subscripts(
            inner,
        ) {
            Ok(subscripts) => Ok(Tree::Subscripted { name, subscripts }),
            Err(f) => Err(f),
        },
{
    let w = wrapped(open, inner, close);
    let u = name + w;
    let n = u.len() as int;
    let k = name.len() as int;
    lemma_sealed_headed(name, open, inner, close);
    lemma_wrapped_depth(open, inner, close);
    lemma_trim_tight(u);
    assert(u[0] == name[0]);
    assert(is_word_char(name[0]));
    lemma_not_number(u, 0);
    lemma_sealed_not_if(u);
    lemma_no_split(u);
    assert(u[k] == open);
    assert(!is_identifier(u)) by {
        if is_identifier(u) {
            assert(is_word_char(u[k]));
        }
    }
    lemma_first_opener(u, 0);
    assert(first_opener(u, 0) == k) by {
        let r = first_opener(u, 0);
        if r < k {
            assert(u[r] == name[r]);
            assert(is_word_char(name[r]));
        }
    }
    assert(u.subrange(0, k) =~= name);
    assert(tight(name)) by {
        assert(is_word_char(name[0]));
        assert(is_word_char(name[name.len() - 1]));
    }
    lemma_trim_tight(name);
    assert(u.last() == close);
    assert(encloses(u, k));
    assert(u.subrange(k + 1, n - 1) =~= inner);
    assert(parsed(u) == parsed_atom(u));
}

/// A sealed text with a minus sign before it reads as the negation of what the
/// text reads as.
pub proof fn lemma_parse_negation(operand: Seq<char>)
    requires
        sealed(operand),
    ensures
        parsed(negation_text(operand)) == match parsed(operand) {
            Ok(e) => Ok(Tree::Unary { op: UnaryOperator::Negate, expr: Box::new(e) }),
            Err(f) => Err::<Tree, Failure>(f),
        },
{
    let minus = seq!['-'];
    let u = negation_text(operand);
    let n = u.len() as int;
    lemma_negation_balanced(operand);
    assert(u[0] == '-');
    assert(u.last() == operand.last());
    lemma_trim_tight(u);
    lemma_not_number(u, 0);
    assert(!keyword_at(u, 0, "IF"@, "if"@)) by {
        crate::model::sealed::lemma_keyword_letters("IF"@, "if"@);
        if keyword_at(u, 0, "IF"@, "if"@) {
            assert(u[0int + 0] == "IF"@[0] || u[0int + 0] == "if"@[0]);
            assert(is_letter("IF"@[0]) && is_letter("if"@[0]));
        }
    }
    assert(flat(minus));
    lemma_flat_depth(minus, 1);
    assert forall|level: Level, i: int| 1 <= i < n implies !(#[trigger] op_at(u, level, i)
        && depth_at(u, i) == 0) by {
        lemma_depth_concat(minus, operand, i);
        assert(u[i] == operand[i - 1]);
        if depth_at(operand, i - 1) == 0 {
            assert(plain(operand[i - 1]));
        }
    }
    assert(depth_at(u, 0) == 0);
    lemma_last_op(u, Level::Comparison, n);
    lemma_last_op(u, Level::Additive, n);
    lemma_last_op(u, Level::Multiplicative, n);
    lemma_last_op(u, Level::Power, n);
    assert(last_op(u, Level::Comparison, n) is None) by {
        if let Some(q) = last_op(u, Level::Comparison, n) {
            assert(op_at(u, Level::Comparison, q));
        }
    }
    assert(last_op(u, Level::Multiplicative, n) is None) by {
        if let Some(q) = last_op(u, Level::Multiplicative, n) {
            assert(op_at(u, Level::Multiplicative, q));
        }
    }
    assert(last_op(u, Level::Power, n) is None) by {
        if let Some(q) = last_op(u, Level::Power, n) {
            assert(op_at(u, Level::Power, q));
        }
    }
    assert(last_op(u, Level::Additive, n) == Some(0int)) by {
        assert(op_at(u, Level::Additive, 0));
        if let Some(q) = last_op(u, Level::Additive, n) {
            assert(op_at(u, Level::Additive, q));
        }
    }
    assert(split_level(u) is None);
    assert(u.subrange(1, n) =~= operand);
    assert(parsed(u) == parsed_atom(u));
}

/// What stands at each place of two sealed operands with an operator between
/// them, and at what depth.
pub proof fn lemma_binary_places(left: Seq<char>, op: Operator, right: Seq<char>, i: int)
    requires
        sealed(left),
        sealed(right),
        0 <= i < binary_text(left, op, right).len(),
    ensures
        ({
            let u = binary_text(left, op, right);
            let q = left.len() as int + 1;
            let w = op_chars(op).len() as int;
            &&& u.len() == left.len() + w + 2 + right.len()
            &&& i < left.len() ==> u[i] == left[i] && depth_at(u, i) == depth_at(left, i)
            &&& left.len() <= i <= q + w ==> depth_at(u, i) == 0
            &&& i == left.len() ==> u[i] == ' '
            &&& q <= i < q + w ==> u[i] == op_chars(op)[i - q]
            &&& i == q + w ==> u[i] == ' '
            &&& i > q + w ==> u[i] == right[i - q - w - 1] && depth_at(u, i) == depth_at(
                right,
                i - q - w - 1,
            )
        }),
{
    let sp = seq![' '];
    let oc = op_chars(op);
    let mid = sp + oc + sp;
    let u = binary_text(left, op, right);
    assert(u =~= left + mid + right);
    assert(flat(mid));
    lemma_flat_balanced(mid);
    lemma_balanced_concat(left, mid);
    lemma_depth_concat(left + mid, right, i);
    if i <= left.len() + mid.len() {
        lemma_depth_concat(left, mid, i);
        if i >= left.len() {
            lemma_flat_depth(mid, i - left.len());
        }
    }
}

/// In two sealed operands with an operator between them, the operator is the
/// only operator outside all parentheses and brackets.
pub proof fn lemma_binary_point(
    left: Seq<char>,
    op: Operator,
    right: Seq<char>,
    level: Level,
    i: int,
)
    requires
        sealed(left),
        sealed(right),
        0 <= i < binary_text(left, op, right).len(),
    ensures
        op_at(binary_text(left, op, right), level, i) && depth_at(
            binary_text(left, op, right),
            i,
        ) == 0 <==> i == left.len() as int + 1 && level == level_of(op),
{
    let u = binary_text(left, op, right);
    let q = left.len() as int + 1;
    let w = op_chars(op).len() as int;
    lemma_binary_places(left, op, right, i);
    if i + 1 < u.len() {
        lemma_binary_places(left, op, right, i + 1);
    }
    if i < left.len() {
        if depth_at(left, i) == 0 {
            assert(plain(left[i]));
        }
    } else if i > q + w {
        if depth_at(right, i - q - w - 1) == 0 {
            assert(plain(right[i - q - w - 1]));
        }
    }
}

/// Where two sealed operands with an operator between them split, and how.
pub proof fn lemma_binary_split(left: Seq<char>, op: Operator, right: Seq<char>)
    requires
        sealed(left),
        sealed(right),
    ensures
        ({
            let u = binary_text(left, op, right);
            let n = u.len() as int;
            let q = left.len() as int + 1;
            &&& split_level(u) == Some(level_of(op))
            &&& last_op(u, level_of(op), n) == Some(q)
            &&& op_width(u, level_of(op), q) == op_chars(op).len()
            &&& operator_at(u, q) == op
        }),
{
    let u = binary_text(left, op, right);
    let n = u.len() as int;
    let q = left.len() as int + 1;
    lemma_binary_places(left, op, right, q);
    lemma_binary_places(left, op, right, q + 1);
    lemma_binary_point(left, op, right, level_of(op), q);
    assert forall|level: Level|
        #![trigger last_op(u, level, n)]
        level != Level::Comma ==> last_op(u, level, n) == if level == level_of(op) {
            Some(q)
        } else {
            None
        } by {
        lemma_last_op(u, level, n);
        match last_op(u, level, n) {
            Some(r) => {
                lemma_binary_point(left, op, right, level, r);
            },
            None => {
                lemma_binary_point(left, op, right, level, q);
            },
        }
    }
    assert(last_op(u, Level::Comparison, n) == if Level::Comparison == level_of(op) {
        Some(q)
    } else {
        None
    });
    assert(last_op(u, Level::Additive, n) == if Level::Additive == level_of(op) {
        Some(q)
    } else {
        None
    });
    assert(last_op(u, Level::Multiplicative, n) == if Level::Multiplicative == level_of(op) {
        Some(q)
    } else {
        None
    });
    assert(last_op(u, Level::Power, n) == if Level::Power == level_of(op) {
        Some(q)
    } else {
        None
    });
}

/// Two sealed operands with an operator between them read as the operation on
/// what the operands read as.
pub proof fn lemma_parse_binary(left: Seq<char>, op: Operator, right: Seq<char>)
    requires
        sealed(left),
        sealed(right),
    ensures
        parsed(binary_text(left, op, right)) == match parsed(left) {
            Err(f) => Err::<Tree, Failure>(f),
            Ok(l) => match parsed(right) {
                Err(f) => Err(f),
                Ok(r) => Ok(Tree::Binary { op, left: Box::new(l), right: Box::new(r) }),
            },
        },
{
    let sp = seq![' '];
    let oc = op_chars(op);
    let u = binary_text(left, op, right);
    let n = u.len() as int;
    let q = left.len() as int + 1;
    let w = oc.len() as int;
    lemma_binary_balanced(left, op, right);
    lemma_binary_split(left, op, right);
    lemma_binary_places(left, op, right, 0);
    lemma_binary_places(left, op, right, n - 1);
    lemma_binary_places(left, op, right, left.len() as int);
    assert(tight(u));
    lemma_trim_tight(u);
    lemma_not_number(u, left.len() as int);
    assert(!keyword_at(u, 0, "IF"@, "if"@)) by {
        let e = Seq::<char>::empty();
        let rest = sp + oc + sp + right;
        assert(rest[0] == ' ');
        lemma_embedded_quiet(e, left, rest, 0);
        assert(e + left + rest =~= u);
        assert(depth_at(u, 0) == 0);
    }
    assert(u.subrange(0, q) =~= left + sp);
    assert(u.subrange(q + w, n) =~= sp + right);
    lemma_parse_padded(left);
    lemma_parse_padded(right);
}

/// No keyword starts at a character that is no letter.
pub proof fn lemma_nonletter_quiet(u: Seq<char>, i: int)
    requires
        0 <= i < u.len(),
        !is_letter(u[i]),
    ensures
        no_keyword_at(u, i),
{
    lemma_keyword_letters("IF"@, "if"@);
    lemma_keyword_letters("THEN"@, "then"@);
    lemma_keyword_letters("ELSE"@, "else"@);
    if keyword_at(u, i, "IF"@, "if"@) {
        assert(u[i + 0] == "IF"@[0] || u[i + 0] == "if"@[0]);
        assert(is_letter("IF"@[0]) && is_letter("if"@[0]));
    }
    if keyword_at(u, i, "THEN"@, "then"@) {
        assert(u[i + 0] == "THEN"@[0] || u[i + 0] == "then"@[0]);
        assert(is_letter("THEN"@[0]) && is_letter("then"@[0]));
    }
    if keyword_at(u, i, "ELSE"@, "else"@) {
        assert(u[i + 0] == "ELSE"@[0] || u[i + 0] == "else"@[0]);
        assert(is_letter("ELSE"@[0]) && is_letter("else"@[0]));
    }
}

/// The search for keywords passes over a stretch that holds none.
pub proof fn lemma_skip_quiet(u: Seq<char>, i: int, j: int, pending: nat, then_at: Option<int>)
    requires
        0 <= i <= j <= u.len(),
        forall|k: int| i <= k < j ==> #[trigger] no_keyword_at(u, k),
    ensures
        find_keywords(u, i, pending, then_at) == find_keywords(u, j, pending, then_at),
    decreases j - i,
{
    if i < j {
        assert(no_keyword_at(u, i));
        lemma_skip_quiet(u, i + 1, j, pending, then_at);
    }
}

/// What stands at each place of a conditional written with sealed parts, and
/// at what depth.
pub proof fn lemma_conditional_places(c: Seq<char>, a: Seq<char>, b: Seq<char>, i: int)
    requires
        sealed(c),
        sealed(a),
        sealed(b),
        0 <= i <= conditional_text(c, a, b).len(),
    ensures
        ({
            let u = conditional_text(c, a, b);
            let k1 = seq!['I', 'F', ' '];
            let k2 = seq![' ', 'T', 'H', 'E', 'N', ' '];
            let k3 = seq![' ', 'E', 'L', 'S', 'E', ' '];
            let s1 = 3int;
            let s2 = 3 + (c.len() as int);
            let s3 = 9 + (c.len() as int);
            let s4 = 9 + (c.len() as int) + (a.len() as int);
            let s5 = 15 + (c.len() as int) + (a.len() as int);
            &&& u.len() == s5 + (b.len() as int)
            &&& i < s1 ==> u[i] == k1[i]
            &&& i <= s1 ==> depth_at(u, i) == 0
            &&& s1 <= i < s2 ==> u[i] == c[i - s1]
            &&& s1 <= i <= s2 ==> depth_at(u, i) == depth_at(c, i - s1)
            &&& s2 <= i < s3 ==> u[i] == k2[i - s2]
            &&& s2 <= i <= s3 ==> depth_at(u, i) == 0
            &&& s3 <= i < s4 ==> u[i] == a[i - s3]
            &&& s3 <= i <= s4 ==> depth_at(u, i) == depth_at(a, i - s3)
            &&& s4 <= i < s5 ==> u[i] == k3[i - s4]
            &&& s4 <= i <= s5 ==> depth_at(u, i) == 0
            &&& s5 <= i < u.len() ==> u[i] == b[i - s5]
            &&& s5 <= i ==> depth_at(u, i) == depth_at(b, i - s5)
        }),
{
    let k1 = seq!['I', 'F', ' '];
    let k2 = seq![' ', 'T', 'H', 'E', 'N', ' '];
    let k3 = seq![' ', 'E', 'L', 'S', 'E', ' '];
    let u = conditional_text(c, a, b);
    let x1 = k1 + c;
    let x2 = x1 + k2;
    let x3 = x2 + a;
    let x4 = x3 + k3;
    assert(u == x4 + b);
    assert(flat(k1));
    assert(flat(k2));
    assert(flat(k3));
    lemma_flat_balanced(k1);
    lemma_flat_balanced(k2);
    lemma_flat_balanced(k3);
    lemma_balanced_concat(k1, c);
    lemma_balanced_concat(x1, k2);
    lemma_balanced_concat(x2, a);
    lemma_balanced_concat(x3, k3);
    lemma_depth_concat(x4, b, i);
    if i <= x4.len() {
        lemma_depth_concat(x3, k3, i);
        if i > x3.len() {
            lemma_flat_depth(k3, i - x3.len());
        }
        if i <= x3.len() {
            lemma_depth_concat(x2, a, i);
            if i <= x2.len() {
                lemma_depth_concat(x1, k2, i);
                if i > x1.len() {
                    lemma_flat_depth(k2, i - x1.len());
                }
                if i <= x1.len() {
                    lemma_depth_concat(k1, c, i);
                    if i <= k1.len() {
                        lemma_flat_depth(k1, i);
                    }
                }
            }
        }
    }
}

/// In a conditional written with sealed parts, the keywords found are the ones
/// written between the parts.
pub proof fn lemma_conditional_keywords(c: Seq<char>, a: Seq<char>, b: Seq<char>)
    requires
        sealed(c),
        sealed(a),
        sealed(b),
    ensures
        find_keywords(conditional_text(c, a, b), 2, 0, None) == (Keywords::Found {
            then_at: 4 + (c.len() as int),
            else_at: 10 + (c.len() as int) + (a.len() as int),
        }),
        keyword_at(conditional_text(c, a, b), 0, "IF"@, "if"@),
{
    reveal_strlit("IF");
    reveal_strlit("if");
    reveal_strlit("THEN");
    reveal_strlit("then");
    reveal_strlit("ELSE");
    reveal_strlit("else");
    let k1 = seq!['I', 'F', ' '];
    let k2 = seq![' ', 'T', 'H', 'E', 'N', ' '];
    let k3 = seq![' ', 'E', 'L', 'S', 'E', ' '];
    let u = conditional_text(c, a, b);
    let n = u.len() as int;
    let s2 = 3 + (c.len() as int);
    let s3 = 9 + (c.len() as int);
    let s4 = 9 + (c.len() as int) + (a.len() as int);
    let s5 = 15 + (c.len() as int) + (a.len() as int);
    let t = s2 + 1;
    let e = s4 + 1;
    assert forall|i: int| 0 <= i <= n implies #[trigger] depth_at(u, i) == depth_at(u, i) && (i
        < 3 ==> u[i] == k1[i]) && (s2 <= i < s3 ==> u[i] == k2[i - s2] && depth_at(u, i) == 0)
        && (s4 <= i < s5 ==> u[i] == k3[i - s4] && depth_at(u, i) == 0) by {
        lemma_conditional_places(c, a, b, i);
    }
    lemma_conditional_places(c, a, b, 0);
    assert(depth_at(u, 0) == 0);
    assert(depth_at(u, 1) == depth_at(u, 1));
    assert(depth_at(u, 2) == depth_at(u, 2));
    assert(u[0] == 'I' && u[1] == 'F' && u[2] == ' ');
    assert(keyword_at(u, 0, "IF"@, "if"@)) by {
        assert forall|j: int| 0 <= j < 2 implies u[0 + j] == "IF"@[j] || u[0 + j] == "if"@[j] by {
            if j == 0 {
                assert(u[0int + 0] == 'I');
            } else {
                assert(u[0int + 1] == 'F');
            }
        }
    }
    // nothing between the IF and the THEN
    assert forall|k: int| 2 <= k < t implies #[trigger] no_keyword_at(u, k) by {
        lemma_conditional_places(c, a, b, k);
        if k == 2 {
            lemma_nonletter_quiet(u, k);
        } else if k < s2 {
            let rest = k2 + a + k3 + b;
            assert(rest[0] == ' ');
            assert(flat(k1));
            lemma_flat_depth(k1, 3);
            lemma_embedded_quiet(k1, c, rest, k - 3);
            assert(k1 + c + rest =~= u);
        } else {
            assert(depth_at(u, s2) == depth_at(u, s2));
            assert(u[s2] == k2[0]);
            lemma_nonletter_quiet(u, k);
        }
    }
    lemma_skip_quiet(u, 2, t, 0, None);
    // the THEN
    assert(depth_at(u, t) == depth_at(u, t));
    assert(depth_at(u, t + 1) == depth_at(u, t + 1));
    assert(depth_at(u, t + 2) == depth_at(u, t + 2));
    assert(depth_at(u, t + 3) == depth_at(u, t + 3));
    assert(depth_at(u, t + 4) == depth_at(u, t + 4));
    assert(depth_at(u, t - 1) == depth_at(u, t - 1));
    assert(u[t - 1] == ' ' && u[t] == 'T' && u[t + 1] == 'H' && u[t + 2] == 'E' && u[t + 3] == 'N'
        && u[t + 4] == ' ');
    assert(!keyword_at(u, t, "IF"@, "if"@)) by {
        if keyword_at(u, t, "IF"@, "if"@) {
            assert(u[t + 0] == "IF"@[0] || u[t + 0] == "if"@[0]);
        }
    }
    assert(keyword_at(u, t, "THEN"@, "then"@)) by {
        assert forall|j: int| 0 <= j < 4 implies u[t + j] == "THEN"@[j] || u[t + j]
            == "then"@[j] by {
            if j == 0 {
                assert(u[t + 0] == 'T');
            } else if j == 1 {
                assert(u[t + 1] == 'H');
            } else if j == 2 {
                assert(u[t + 2] == 'E');
            } else {
                assert(u[t + 3] == 'N');
            }
        }
    }
    assert(word_here(u, t, "THEN"@, "then"@));
    assert(find_keywords(u, t, 0, None) == find_keywords(u, t + 4, 0, Some(t)));
    // nothing between the THEN and the ELSE
    assert forall|k: int| t + 4 <= k < e implies #[trigger] no_keyword_at(u, k) by {
        lemma_conditional_places(c, a, b, k);
        if k == t + 4 {
            lemma_nonletter_quiet(u, k);
        } else if k < s4 {
            let before = k1 + c + k2;
            let rest = k3 + b;
            assert(rest[0] == ' ');
            assert(depth_at(before, before.len() as int) == 0) by {
                assert(flat(k1));
                assert(flat(k2));
                lemma_flat_balanced(k1);
                lemma_flat_balanced(k2);
                lemma_balanced_concat(k1, c);
                lemma_balanced_concat(k1 + c, k2);
            }
            lemma_embedded_quiet(before, a, rest, k - s3);
            assert(before + a + rest =~= u);
        } else {
            assert(u[s4] == k3[0]);
            lemma_nonletter_quiet(u, k);
        }
    }
    lemma_skip_quiet(u, t + 4, e, 0, Some(t));
    // the ELSE
    assert(depth_at(u, e) == depth_at(u, e));
    assert(depth_at(u, e + 1) == depth_at(u, e + 1));
    assert(depth_at(u, e + 2) == depth_at(u, e + 2));
    assert(depth_at(u, e + 3) == depth_at(u, e + 3));
    assert(depth_at(u, e + 4) == depth_at(u, e + 4));
    assert(depth_at(u, e - 1) == depth_at(u, e - 1));
    assert(u[e - 1] == ' ' && u[e] == 'E' && u[e + 1] == 'L' && u[e + 2] == 'S' && u[e + 3] == 'E'
        && u[e + 4] == ' ');
    assert(!keyword_at(u, e, "IF"@, "if"@)) by {
        if keyword_at(u, e, "IF"@, "if"@) {
            assert(u[e + 0] == "IF"@[0] || u[e + 0] == "if"@[0]);
        }
    }
    assert(!keyword_at(u, e, "THEN"@, "then"@)) by {
        if keyword_at(u, e, "THEN"@, "then"@) {
            assert(u[e + 0] == "THEN"@[0] || u[e + 0] == "then"@[0]);
        }
    }
    assert(keyword_at(u, e, "ELSE"@, "else"@)) by {
        assert forall|j: int| 0 <= j < 4 implies u[e + j] == "ELSE"@[j] || u[e + j]
            == "else"@[j] by {
            if j == 0 {
                assert(u[e + 0] == 'E');
            } else if j == 1 {
                assert(u[e + 1] == 'L');
            } else if j == 2 {
                assert(u[e + 2] == 'S');
            } else {
                assert(u[e + 3] == 'E');
            }
        }
    }
    assert(word_here(u, e, "ELSE"@, "else"@));
    assert(find_keywords(u, e, 0, Some(t)) == (Keywords::Found { then_at: t, else_at: e }));
}

/// A conditional written with sealed parts reads as the conditional of what
/// the parts read as.
pub proof fn lemma_parse_conditional(c: Seq<char>, a: Seq<char>, b: Seq<char>)
    requires
        sealed(c),
        sealed(a),
        sealed(b),
    ensures
        parsed(conditional_text(c, a, b)) == match parsed(c) {
            Err(f) => Err::<Tree, Failure>(f),
            Ok(condition) => match parsed(a) {
                Err(f) => Err(f),
                Ok(true_expr) => match parsed(b) {
                    Err(f) => Err(f),
                    Ok(false_expr) => Ok(
                        Tree::Conditional {
                            condition: Box::new(condition),
                            true_expr: Box::new(true_expr),
                            false_expr: Box::new(false_expr),
                        },
                    ),
                },
            },
        },
{
    let sp = seq![' '];
    let u = conditional_text(c, a, b);
    let n = u.len() as int;
    let t = 4 + (c.len() as int);
    let e = 10 + (c.len() as int) + (a.len() as int);
    lemma_conditional_balanced(c, a, b);
    lemma_conditional_keywords(c, a, b);
    lemma_conditional_places(c, a, b, 0);
    lemma_conditional_places(c, a, b, n - 1);
    assert(u[0] == 'I');
    assert(u.last() == b.last());
    assert(tight(u));
    lemma_trim_tight(u);
    lemma_not_number(u, 0);
    assert(u.subrange(2, t) =~= sp + c + sp);
    assert(u.subrange(t + 4, e) =~= sp + a + sp);
    assert(u.subrange(e + 4, n) =~= sp + b);
    lemma_parse_padded(c);
    lemma_parse_padded(a);
    lemma_parse_padded(b);
    assert(parsed(u) == parsed_conditional(u));
}

/// A list of tight, balanced pieces is tight and balanced, and ends as its
/// last piece does.
pub proof fn lemma_listed_tight(parts: Seq<Seq<char>>)
    requires
        parts.len() >= 1,
        forall|i: int| 0 <= i < parts.len() ==> tight(#[trigger] parts[i]),
    ensures
        tight(listed(parts)),
    decreases parts.len(),
{
    if parts.len() > 1 {
        let front = parts.drop_last();
        assert forall|i: int| 0 <= i < front.len() implies tight(#[trigger] front[i]) by {
            assert(front[i] == parts[i]);
        }
        lemma_listed_tight(front);
        let u = listed(parts);
        assert(u[0] == listed(front)[0]);
        assert(u.last() == parts.last().last());
    }
}

/// In a list whose last piece is sealed, the last comma outside parentheses
/// and brackets is the one before the last piece.
pub proof fn lemma_last_comma(front: Seq<char>, last: Seq<char>)
    requires
        balanced(front),
        sealed(last),
    ensures
        last_op(
            front + seq![',', ' '] + last,
            Level::Comma,
            (front + seq![',', ' '] + last).len() as int,
        ) == Some(front.len() as int),
        (front + seq![',', ' '] + last).subrange(0, front.len() as int) == front,
        (front + seq![',', ' '] + last).subrange(
            front.len() as int + 1,
            (front + seq![',', ' '] + last).len() as int,
        ) == seq![' '] + last,
{
    let sep = seq![',', ' '];
    let u = front + sep + last;
    let n = u.len() as int;
    let q = front.len() as int;
    assert(flat(sep));
    lemma_flat_balanced(sep);
    lemma_balanced_concat(front, sep);
    assert(u[q] == ',');
    assert(depth_at(u, q) == 0) by {
        lemma_depth_concat(front + sep, last, q);
        lemma_depth_concat(front, sep, q);
    }
    assert(op_at(u, Level::Comma, q));
    assert forall|k: int| q < k < n implies !(op_at(u, Level::Comma, k) && depth_at(u, k)
        == 0) by {
        if k == q + 1 {
            assert(u[k] == ' ');
        } else {
            lemma_depth_concat(front + sep, last, k);
            assert(u[k] == last[k - q - 2]);
            if depth_at(last, k - q - 2) == 0 {
                assert(plain(last[k - q - 2]));
            }
        }
    }
    lemma_last_op(u, Level::Comma, n);
    assert(u.subrange(0, q) =~= front);
    assert(u.subrange(q + 1, n) =~= seq![' '] + last);
}

/// A list of sealed pieces reads as the list of what the pieces read as.
pub proof fn lemma_parse_items(parts: Seq<Seq<char>>, trees: Seq<Tree>)
    requires
        parts.len() >= 1,
        parts.len() == trees.len(),
        forall|i: int| 0 <= i < parts.len() ==> sealed(#[trigger] parts[i]),
        forall|i: int| 0 <= i < parts.len() ==> parsed(#[trigger] parts[i]) == Ok::<Tree, Failure>(
            trees[i],
        ),
    ensures
        parsed_items(listed(parts)) == Ok::<Seq<Tree>, Failure>(trees),
    decreases parts.len(),
{
    let u = listed(parts);
    if parts.len() == 1 {
        lemma_no_split(parts[0]);
        assert(last_op(u, Level::Comma, u.len() as int) is None);
        assert(seq![trees[0]] =~= trees);
    } else {
        let front = parts.drop_last();
        let front_trees = trees.drop_last();
        assert forall|i: int| 0 <= i < front.len() implies sealed(#[trigger] front[i]) && parsed(
            front[i],
        ) == Ok::<Tree, Failure>(front_trees[i]) by {
            assert(front[i] == parts[i]);
        }
        lemma_parse_items(front, front_trees);
        assert forall|i: int| 0 <= i < front.len() implies balanced(#[trigger] front[i]) by {}
        lemma_listed_balanced(front);
        lemma_last_comma(listed(front), parts.last());
        lemma_parse_padded(parts.last());
        assert(front_trees.push(trees.last()) =~= trees);
    }
}

/// The written arguments of a call read as the arguments.
pub proof fn lemma_parse_list(parts: Seq<Seq<char>>, trees: Seq<Tree>)
    requires
        parts.len() == trees.len(),
        forall|i: int| 0 <= i < parts.len() ==> sealed(#[trigger] parts[i]),
        forall|i: int| 0 <= i < parts.len() ==> parsed(#[trigger] parts[i]) == Ok::<Tree, Failure>(
            trees[i],
        ),
    ensures
        parsed_list(listed(parts)) == Ok::<Seq<Tree>, Failure>(trees),
{
    let u = listed(parts);
    if parts.len() == 0 {
        crate::model::scan::lemma_trim_bounds(u);
        assert(trees =~= Seq::<Tree>::empty());
    } else {
        assert forall|i: int| 0 <= i < parts.len() implies tight(#[trigger] parts[i]) by {}
        lemma_listed_tight(parts);
        lemma_trim_tight(u);
        lemma_parse_items(parts, trees);
    }
}

/// A well-formed subscript, written out, reads as itself; so it does with a
/// space before it.
pub proof fn lemma_parse_subscript(s: Subscript)
    requires
        well_formed_subscript(s),
    ensures
        subscript_of(subscript_text(s)) == Ok::<Subscript, Failure>(s),
        subscript_of(seq![' '] + subscript_text(s)) == Ok::<Subscript, Failure>(s),
        sealed_piece(subscript_text(s)),
{
    let p = subscript_text(s);
    let e = Seq::<char>::empty();
    let sp = seq![' '];
    lemma_subscript_text(s);
    lemma_trim_tight(p);
    assert(blank(e));
    assert(blank(sp));
    lemma_trim_padded(sp, p, e);
    assert(sp + p + e =~= sp + p);
    lemma_flat_balanced(p);
    assert forall|i: int| 0 <= i < p.len() implies p[i] != ',' by {
        if p != seq!['*'] {
            assert(is_word_char(p[i]));
        }
    }
}

/// Whether a text is a piece of a list of subscripts: tight, without
/// parentheses or brackets, and without a comma.
pub open spec fn sealed_piece(p: Seq<char>) -> bool {
    tight(p) && flat(p) && forall|i: int| 0 <= i < p.len() ==> p[i] != ','
}

/// The written subscripts of a name read as the subscripts.
pub proof fn lemma_parse_subscripts(subscripts: Seq<Subscript>)
    requires
        subscripts.len() >= 1,
        forall|i: int|
            0 <= i < subscripts.len() ==> well_formed_subscript(#[trigger] subscripts[i]),
    ensures
        parsed_subscripts(listed(subscript_texts(subscripts))) == Ok::<Seq<Subscript>, Failure>(
            subscripts,
        ),
    decreases subscripts.len(),
{
    let parts = subscript_texts(subscripts);
    let u = listed(parts);
    let n = u.len() as int;
    lemma_parse_subscript(subscripts.last());
    assert(parts.last() == subscript_text(subscripts.last()));
    if subscripts.len() == 1 {
        assert(u == parts[0]);
        lemma_last_op(u, Level::Comma, n);
        assert(last_op(u, Level::Comma, n) is None);
        assert(seq![subscripts[0]] =~= subscripts);
    } else {
        let front = subscripts.drop_last();
        assert forall|i: int| 0 <= i < front.len() implies well_formed_subscript(
            #[trigger] front[i],
        ) by {
            assert(front[i] == subscripts[i]);
        }
        lemma_parse_subscripts(front);
        assert(subscript_texts(front) =~= parts.drop_last());
        let head = listed(parts.drop_last());
        let last = parts.last();
        let sep = seq![',', ' '];
        assert forall|i: int| 0 <= i < parts.drop_last().len() implies balanced(
            #[trigger] parts.drop_last()[i],
        ) by {
            lemma_subscript_text(front[i]);
            assert(parts.drop_last()[i] == subscript_text(front[i]));
            lemma_flat_balanced(parts.drop_last()[i]);
        }
        lemma_listed_balanced(parts.drop_last());
        let q = head.len() as int;
        assert(flat(sep));
        lemma_flat_balanced(sep);
        lemma_balanced_concat(head, sep);
        assert(u == head + sep + last);
        assert(u[q] == ',');
        assert(depth_at(u, q) == 0) by {
            lemma_depth_concat(head + sep, last, q);
            lemma_depth_concat(head, sep, q);
        }
        assert forall|k: int| q < k < n implies !op_at(u, Level::Comma, k) by {
            if k == q + 1 {
                assert(u[k] == ' ');
            } else {
                assert(u[k] == last[k - q - 2]);
            }
        }
        lemma_last_op(u, Level::Comma, n);
        assert(last_op(u, Level::Comma, n) == Some(q));
        assert(u.subrange(0, q) =~= head);
        assert(u.subrange(q + 1, n) =~= seq![' '] + last);
        assert(front.push(subscripts.last()) =~= subscripts);
    }
}

/// The written form of a well-formed expression reads as the expression.
pub proof fn lemma_reads_back(t: Tree)
    requires
        well_formed(t),
    ensures
        parsed(printed(t)) == Ok::<Tree, Failure>(t),
    decreases t,
{
    lemma_printed_shape(t);
    lemma_printed_sealed(t);
    let p = printed(t);
    match t {
        Tree::Constant(text) => {
            lemma_trim_tight(text);
        },
        Tree::Variable(name) => {
            lemma_trim_tight(name);
            assert(is_word_char(name[0]));
            lemma_not_number(name, 0);
            lemma_sealed_not_if(name);
            lemma_no_split(name);
            assert(parsed(name) == parsed_atom(name));
        },
        Tree::Subscripted { name, subscripts } => {
            let parts = subscript_texts(subscripts);
            assert forall|i: int| 0 <= i < parts.len() implies balanced(#[trigger] parts[i]) by {
                lemma_subscript_text(subscripts[i]);
                lemma_flat_balanced(parts[i]);
            }
            lemma_listed_balanced(parts);
            lemma_parse_headed(name, '[', listed(parts), ']');
            lemma_parse_subscripts(subscripts);
        },
        Tree::Binary { op, left, right } => {
            lemma_printed_sealed(*left);
            lemma_printed_sealed(*right);
            lemma_reads_back(*left);
            lemma_reads_back(*right);
            lemma_binary_balanced(printed(*left), op, printed(*right));
            lemma_parse_wrapped(binary_text(printed(*left), op, printed(*right)));
            lemma_parse_binary(printed(*left), op, printed(*right));
        },
        Tree::Unary { op, expr } => {
            lemma_printed_sealed(*expr);
            lemma_reads_back(*expr);
            lemma_negation_balanced(printed(*expr));
            lemma_parse_wrapped(negation_text(printed(*expr)));
            lemma_parse_negation(printed(*expr));
        },
        Tree::Call { name, args } => {
            let parts = printed_all(args);
            assert forall|i: int| 0 <= i < parts.len() implies sealed(#[trigger] parts[i])
                && parsed(parts[i]) == Ok::<Tree, Failure>(args[i]) by {
                lemma_printed_sealed(args[i]);
                lemma_reads_back(args[i]);
            }
            assert forall|i: int| 0 <= i < parts.len() implies balanced(#[trigger] parts[i]) by {}
            lemma_listed_balanced(parts);
            lemma_parse_headed(name, '(', listed(parts), ')');
            lemma_parse_list(parts, args);
        },
        Tree::Conditional { condition, true_expr, false_expr } => {
            lemma_printed_sealed(*condition);
            lemma_printed_sealed(*true_expr);
            lemma_printed_sealed(*false_expr);
            lemma_reads_back(*condition);
            lemma_reads_back(*true_expr);
            lemma_reads_back(*false_expr);
            let inner = conditional_text(
                printed(*condition),
                printed(*true_expr),
                printed(*false_expr),
            );
            lemma_conditional_balanced(
                printed(*condition),
                printed(*true_expr),
                printed(*false_expr),
            );
            lemma_parse_wrapped(inner);
            lemma_parse_conditional(printed(*condition), printed(*true_expr), printed(*false_expr));
        },
    }
}

/// What a text reads as is well formed.
pub proof fn lemma_parsed_well_formed(s: Seq<char>)
    ensures
        parsed(s) matches Ok(t) ==> well_formed(t),
    decreases s.len(), 3nat,
{
    let t = trimmed_text(s);
    let n = t.len() as int;
    crate::model::scan::lemma_trim_bounds(s);
    if n == 0 || !balanced(t) || is_number(t) {
    } else if keyword_at(t, 0, "IF"@, "if"@) {
        lemma_conditional_well_formed(t);
    } else {
        match split_level(t) {
            Some(level) => {
                let p = last_op(t, level, n).unwrap();
                let w = op_width(t, level, p);
                lemma_last_op(t, level, n);
                lemma_parsed_well_formed(t.subrange(0, p));
                lemma_parsed_well_formed(t.subrange(p + w, n));
            },
            None => {
                lemma_atom_well_formed(t);
            },
        }
    }
}

/// What a conditional reads as is well formed.
pub proof fn lemma_conditional_well_formed(t: Seq<char>)
    ensures
        parsed_conditional(t) matches Ok(e) ==> well_formed(e),
    decreases t.len(), 2nat,
{
    let n = t.len() as int;
    match find_keywords(t, 2, 0, None) {
        Keywords::Found { then_at, else_at } => {
            crate::model::grammar::lemma_find_keywords(t, 2, 0, None);
            lemma_parsed_well_formed(t.subrange(2, then_at));
            lemma_parsed_well_formed(t.subrange(then_at + 4, else_at));
            lemma_parsed_well_formed(t.subrange(else_at + 4, n));
        },
        _ => {},
    }
}

/// What a text that does not split reads as is well formed.
pub proof fn lemma_atom_well_formed(t: Seq<char>)
    ensures
        parsed_atom(t) matches Ok(e) ==> well_formed(e),
    decreases t.len(), 1nat,
{
    let n = t.len() as int;
    if n == 0 {
    } else if t[0] == '-' {
        lemma_parsed_well_formed(t.subrange(1, n));
    } else if t[0] == '(' {
        if encloses(t, 0) {
            lemma_parsed_well_formed(t.subrange(1, n - 1));
        }
    } else if is_identifier(t) {
    } else {
        let p = first_opener(t, 0);
        let name = trimmed_text(t.subrange(0, p));
        if p < n && is_identifier(name) && encloses(t, p) {
            let inner = t.subrange(p + 1, n - 1);
            lemma_first_opener(t, 0);
            if t[p] == '(' {
                lemma_list_well_formed(inner);
            } else {
                lemma_subscripts_well_formed(inner);
            }
        }
    }
}

/// What a list of arguments reads as is well formed.
pub proof fn lemma_list_well_formed(s: Seq<char>)
    ensures
        parsed_list(s) matches Ok(v) ==> forall|i: int|
            0 <= i < v.len() ==> well_formed(#[trigger] v[i]),
    decreases s.len(), 5nat,
{
    if trimmed_text(s).len() != 0 {
        lemma_items_well_formed(s);
    }
}

/// What a list of expressions reads as is well formed.
pub proof fn lemma_items_well_formed(s: Seq<char>)
    ensures
        parsed_items(s) matches Ok(v) ==> forall|i: int|
            0 <= i < v.len() ==> well_formed(#[trigger] v[i]),
    decreases s.len(), 4nat,
{
    let n = s.len() as int;
    match last_op(s, Level::Comma, n) {
        None => {
            lemma_parsed_well_formed(s);
        },
        Some(p) => {
            lemma_last_op(s, Level::Comma, n);
            lemma_items_well_formed(s.subrange(0, p));
            lemma_parsed_well_formed(s.subrange(p + 1, n));
        },
    }
}

/// What a list of subscripts reads as is well formed, and not empty.
pub proof fn lemma_subscripts_well_formed(s: Seq<char>)
    ensures
        parsed_subscripts(s) matches Ok(v) ==> v.len() >= 1 && forall|i: int|
            0 <= i < v.len() ==> well_formed_subscript(#[trigger] v[i]),
    decreases s.len(),
{
    let n = s.len() as int;
    match last_op(s, Level::Comma, n) {
        None => {},
        Some(p) => {
            lemma_last_op(s, Level::Comma, n);
            lemma_subscripts_well_formed(s.subrange(0, p));
        },
    }
}

/// Reading a text, writing the expression out and reading what was written
/// gives the expression again.
pub proof fn lemma_round_trip(s: Seq<char>)
    ensures
        parsed(s) matches Ok(t) ==> parsed(printed(t)) == parsed(s),
{
    lemma_parsed_well_formed(s);
    if let Ok(t) = parsed(s) {
        lemma_reads_back(t);
    }
}

} // verus!
