//! The expression language: the syntax tree of an equation and how it is written out.

use vstd::prelude::*;
use vstd::string::*;
use crate::model::dimension::SubscriptRef;
use crate::text::{join, joined};

verus! {

/// The binary operators. A comparison yields one for true and zero for false.
#[derive(Debug, Clone, Copy, PartialEq, Eq, Structural)]
pub enum Operator {
    Add,
    Subtract,
    Multiply,
    Divide,
    Power,
    GreaterThan,
    LessThan,
    GreaterEqual,
    LessEqual,
    Equal,
    NotEqual,
}

#[derive(Debug, Clone, Copy, PartialEq, Eq, Structural)]
pub enum UnaryOperator {
    Negate,
}

/// An equation as a tree.
#[derive(Debug)]
#[allow(inconsistent_fields)]
pub enum Expression {
    /// A decimal numeral, kept as it was written.
    Constant(String),
    /// A reference to a named quantity.
    Variable(String),
    /// A reference to elements of an array variable, such as `Population[North]`.
    SubscriptedVariable { name: String, subscripts: Vec<SubscriptRef> },
    BinaryOp { op: Operator, left: Box<Expression>, right: Box<Expression> },
    UnaryOp { op: UnaryOperator, expr: Box<Expression> },
    FunctionCall { name: String, args: Vec<Expression> },
    /// Only the branch that the condition selects is evaluated.
    Conditional {
        condition: Box<Expression>,
        true_expr: Box<Expression>,
        false_expr: Box<Expression>,
    },
}

/// A subscript as a mathematical value.
pub enum Subscript {
    Element(Seq<char>),
    Dimension(Seq<char>),
    Wildcard,
}

/// An expression as a mathematical value.
#[allow(inconsistent_fields)]
pub enum Tree {
    Constant(Seq<char>),
    Variable(Seq<char>),
    Subscripted { name: Seq<char>, subscripts: Seq<Subscript> },
    Binary { op: Operator, left: Box<Tree>, right: Box<Tree> },
    Unary { op: UnaryOperator, expr: Box<Tree> },
    Call { name: Seq<char>, args: Seq<Tree> },
    Conditional { condition: Box<Tree>, true_expr: Box<Tree>, false_expr: Box<Tree> },
}

/// The value of a subscript.
pub open spec fn subscript_view(s: SubscriptRef) -> Subscript {
    match s {
        SubscriptRef::Element(e) => Subscript::Element(e@),
        SubscriptRef::Dimension(d) => Subscript::Dimension(d@),
        SubscriptRef::Wildcard => Subscript::Wildcard,
    }
}

/// The values of a list of subscripts.
pub open spec fn subscript_views(subscripts: Seq<SubscriptRef>) -> Seq<Subscript> {
    subscripts.map_values(|s: SubscriptRef| subscript_view(s))
}

impl Expression {
    /// The value of the expression.
    pub open spec fn tree(&self) -> Tree
        decreases self,
    {
        match self {
            Expression::Constant(text) => Tree::Constant(text@),
            Expression::Variable(name) => Tree::Variable(name@),
            Expression::SubscriptedVariable { name, subscripts } => Tree::Subscripted {
                name: name@,
                subscripts: subscript_views(subscripts@),
            },
            Expression::BinaryOp { op, left, right } => Tree::Binary {
                op: *op,
                left: Box::new(left.tree()),
                right: Box::new(right.tree()),
            },
            Expression::UnaryOp { op, expr } => Tree::Unary { op: *op, expr: Box::new(expr.tree()) },
            Expression::FunctionCall { name, args } => Tree::Call {
                name: name@,
                args: Seq::new(
                    args@.len(),
                    |i: int|
                        if 0 <= i < args@.len() {
                            args@[i].tree()
                        } else {
                            Tree::Constant(Seq::empty())
                        },
                ),
            },
            Expression::Conditional { condition, true_expr, false_expr } => Tree::Conditional {
                condition: Box::new(condition.tree()),
                true_expr: Box::new(true_expr.tree()),
                false_expr: Box::new(false_expr.tree()),
            },
        }
    }
}

/// A copy of a subscript.
pub fn clone_subscript(s: &SubscriptRef) -> (r: SubscriptRef)
    ensures
        subscript_view(r) == subscript_view(*s),
{
    match s {
        SubscriptRef::Element(e) => SubscriptRef::Element(e.clone()),
        SubscriptRef::Dimension(d) => SubscriptRef::Dimension(d.clone()),
        SubscriptRef::Wildcard => SubscriptRef::Wildcard,
    }
}

/// A copy of a list of subscripts.
pub fn clone_subscripts(v: &Vec<SubscriptRef>) -> (r: Vec<SubscriptRef>)
    ensures
        subscript_views(r@) == subscript_views(v@),
{
    let mut r: Vec<SubscriptRef> = Vec::new();
    let mut i: usize = 0;
    while i < v.len()
        invariant
            i <= v@.len(),
            r@.len() == i,
            forall|k: int| 0 <= k < i ==> subscript_view(r@[k]) == subscript_view(v@[k]),
        decreases v@.len() - i,
    {
        r.push(clone_subscript(&v[i]));
        i += 1;
    }
    assert(subscript_views(r@) =~= subscript_views(v@));
    r
}

impl Expression {
    /// A copy of the expression.
    pub fn duplicate(&self) -> (r: Expression)
        ensures
            r@ == self@,
        decreases self,
    {
        match self {
            Expression::Constant(text) => Expression::Constant(text.clone()),
            Expression::Variable(name) => Expression::Variable(name.clone()),
            Expression::SubscriptedVariable { name, subscripts } => {
                Expression::SubscriptedVariable {
                    name: name.clone(),
                    subscripts: clone_subscripts(subscripts),
                }
            },
            Expression::BinaryOp { op, left, right } => Expression::BinaryOp {
                op: *op,
                left: Box::new(left.duplicate()),
                right: Box::new(right.duplicate()),
            },
            Expression::UnaryOp { op, expr } => Expression::UnaryOp {
                op: *op,
                expr: Box::new(expr.duplicate()),
            },
            Expression::FunctionCall { name, args } => {
                let mut copies: Vec<Expression> = Vec::new();
                let mut i: usize = 0;
                while i < args.len()
                    invariant
                        i <= args@.len(),
                        copies@.len() == i,
                        forall|k: int| 0 <= k < i ==> copies@[k]@ == args@[k]@,
                        forall|k: int|
                            0 <= k < args@.len() ==> decreases_to!(self => #[trigger] args@[k]),
                    decreases args@.len() - i,
                {
                    copies.push(args[i].duplicate());
                    i += 1;
                }
                let r = Expression::FunctionCall { name: name.clone(), args: copies };
                assert(r@->args =~= self@->args);
                r
            },
            Expression::Conditional { condition, true_expr, false_expr } => {
                Expression::Conditional {
                    condition: Box::new(condition.duplicate()),
                    true_expr: Box::new(true_expr.duplicate()),
                    false_expr: Box::new(false_expr.duplicate()),
                }
            },
        }
    }
}

impl Clone for Expression {
    fn clone(&self) -> (r: Expression)
        ensures
            r@ == self@,
    {
        self.duplicate()
    }
}

impl View for Expression {
    type V = Tree;

    open spec fn view(&self) -> Tree {
        self.tree()
    }
}

/// How an operator is written.
pub open spec fn op_text(op: Operator) -> Seq<char> {
    match op {
        Operator::Add => "+"@,
        Operator::Subtract => "-"@,
        Operator::Multiply => "*"@,
        Operator::Divide => "/"@,
        Operator::Power => "^"@,
        Operator::GreaterThan => ">"@,
        Operator::LessThan => "<"@,
        Operator::GreaterEqual => ">="@,
        Operator::LessEqual => "<="@,
        Operator::Equal => "=="@,
        Operator::NotEqual => "!="@,
    }
}

/// How a subscript is written.
pub open spec fn subscript_text(s: Subscript) -> Seq<char> {
    match s {
        Subscript::Element(e) => e,
        Subscript::Dimension(d) => d,
        Subscript::Wildcard => "*"@,
    }
}

/// How each of the subscripts is written.
pub open spec fn subscript_texts(subscripts: Seq<Subscript>) -> Seq<Seq<char>> {
    subscripts.map_values(|s: Subscript| subscript_text(s))
}

/// How an expression is written out. Every operation, negation and conditional
/// stands in parentheses of its own, so that the text reads back as the same tree
/// wherever it stands.
pub open spec fn printed(e: Tree) -> Seq<char>
    decreases e,
{
    match e {
        Tree::Constant(text) => text,
        Tree::Variable(name) => name,
        Tree::Subscripted { name, subscripts } => name + "["@ + joined(
            subscript_texts(subscripts),
            ", "@,
        ) + "]"@,
        Tree::Binary { op, left, right } => "("@ + printed(*left) + " "@ + op_text(op) + " "@
            + printed(*right) + ")"@,
        Tree::Unary { op, expr } => "(-"@ + printed(*expr) + ")"@,
        Tree::Call { name, args } => name + "("@ + joined(printed_all(args), ", "@) + ")"@,
        Tree::Conditional { condition, true_expr, false_expr } => "(IF "@ + printed(*condition)
            + " THEN "@ + printed(*true_expr) + " ELSE "@ + printed(*false_expr) + ")"@,
    }
}

/// How each of the expressions is written out.
pub open spec fn printed_all(args: Seq<Tree>) -> Seq<Seq<char>>
    decreases args,
{
    Seq::new(
        args.len(),
        |i: int|
            if 0 <= i < args.len() {
                printed(args[i])
            } else {
                Seq::empty()
            },
    )
}

fn operator_text(op: Operator) -> (r: &'static str)
    ensures
        r@ == op_text(op),
{
    match op {
        Operator::Add => "+",
        Operator::Subtract => "-",
        Operator::Multiply => "*",
        Operator::Divide => "/",
        Operator::Power => "^",
        Operator::GreaterThan => ">",
        Operator::LessThan => "<",
        Operator::GreaterEqual => ">=",
        Operator::LessEqual => "<=",
        Operator::Equal => "==",
        Operator::NotEqual => "!=",
    }
}

fn write_subscripts(subscripts: &Vec<SubscriptRef>) -> (r: String)
    ensures
        r@ == joined(subscript_texts(subscript_views(subscripts@)), ", "@),
{
    let mut parts: Vec<String> = Vec::new();
    let mut i: usize = 0;
    while i < subscripts.len()
        invariant
            i <= subscripts@.len(),
            parts@.len() == i,
            forall|k: int|
                0 <= k < i ==> (#[trigger] parts@[k])@ == subscript_text(
                    subscript_view(subscripts@[k]),
                ),
        decreases subscripts@.len() - i,
    {
        let part = match &subscripts[i] {
            SubscriptRef::Element(e) => e.clone(),
            SubscriptRef::Dimension(d) => d.clone(),
            SubscriptRef::Wildcard => String::from_str("*"),
        };
        parts.push(part);
        i += 1;
    }
    assert(parts@.map_values(|s: String| s@) =~= subscript_texts(subscript_views(subscripts@)));
    join(&parts, ", ")
}

impl Expression {
    /// Writes the expression out as text that reads back as the same tree.
    pub fn to_string(&self) -> (r: String)
        ensures
            r@ == printed(self@),
        decreases self,
    {
        match self {
            Expression::Constant(text) => text.clone(),
            Expression::Variable(name) => name.clone(),
            Expression::SubscriptedVariable { name, subscripts } => {
                let inner = write_subscripts(subscripts);
                let mut r = name.clone();
                r.append("[");
                r.append(inner.as_str());
                r.append("]");
                assert(r@ =~= printed(self@));
                r
            },
            Expression::BinaryOp { op, left, right } => {
                let l = left.to_string();
                let right_text = right.to_string();
                let mut r = String::from_str("(");
                r.append(l.as_str());
                r.append(" ");
                r.append(operator_text(*op));
                r.append(" ");
                r.append(right_text.as_str());
                r.append(")");
                assert(r@ =~= printed(self@));
                r
            },
            Expression::UnaryOp { op, expr } => {
                let inner = expr.to_string();
                let mut r = String::from_str("(-");
                r.append(inner.as_str());
                r.append(")");
                assert(r@ =~= printed(self@));
                r
            },
            Expression::FunctionCall { name, args } => {
                let mut parts: Vec<String> = Vec::new();
                let mut i: usize = 0;
                while i < args.len()
                    invariant
                        i <= args@.len(),
                        parts@.len() == i,
                        forall|k: int| 0 <= k < i ==> (#[trigger] parts@[k])@ == printed(args@[k]@),
                        forall|k: int|
                            0 <= k < args@.len() ==> decreases_to!(self => #[trigger] args@[k]),
                    decreases args@.len() - i,
                {
                    parts.push(args[i].to_string());
                    i += 1;
                }
                assert(parts@.map_values(|s: String| s@) =~= printed_all(self@->args));
                let inner = join(&parts, ", ");
                let mut r = name.clone();
                r.append("(");
                r.append(inner.as_str());
                r.append(")");
                assert(r@ =~= printed(self@));
                r
            },
            Expression::Conditional { condition, true_expr, false_expr } => {
                let c = condition.to_string();
                let a = true_expr.to_string();
                let b = false_expr.to_string();
                let mut r = String::from_str("(IF ");
                r.append(c.as_str());
                r.append(" THEN ");
                r.append(a.as_str());
                r.append(" ELSE ");
                r.append(b.as_str());
                r.append(")");
                assert(r@ =~= printed(self@));
                r
            },
        }
    }
}

/// The values of a list of expressions.
pub open spec fn tree_views(args: Seq<Expression>) -> Seq<Tree> {
    Seq::new(args.len(), |i: int| args[i].tree())
}

} // verus!
