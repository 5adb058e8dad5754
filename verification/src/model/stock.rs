//! Stocks: the quantities that accumulate.

use vstd::prelude::*;
use vstd::string::*;
use crate::model::expression::{Expression, Tree};
use crate::model::grammar::{parsed, Failure};
use crate::model::parser::ParseError;
use crate::model::named::Named;
use crate::number::Number;

verus! {

/// The tree of an equation given as text; the constant zero where the text is
/// no expression.
pub open spec fn equation_tree(text: Seq<char>) -> Tree {
    match parsed(text) {
        Ok(t) => t,
        Err(_) => Tree::Constant("0"@),
    }
}

/// Reads an equation; a text that is no expression reads as the constant zero.
pub fn equation_or_zero(text: &str) -> (r: Expression)
    ensures
        r@ == equation_tree(text@),
{
    match Expression::parse(text) {
        Ok(e) => e,
        Err(_) => Expression::Constant(String::from_str("0")),
    }
}

/// A stock: its value changes by its inflows minus its outflows.
#[derive(Debug, Clone)]
pub struct Stock {
    pub name: String,
    /// The value at the start of a run.
    pub initial: Expression,
    /// The names of the flows that fill the stock.
    pub inflows: Vec<String>,
    /// The names of the flows that drain the stock.
    pub outflows: Vec<String>,
    pub units: Option<String>,
    /// Whether the value is kept from falling below zero.
    pub non_negative: bool,
    /// The ceiling that the value is kept from exceeding, if any.
    pub max_value: Option<Number>,
    /// The dimensions of an array-valued stock.
    pub dimensions: Option<Vec<String>>,
}

impl Named for Stock {
    open spec fn label(&self) -> Seq<char> {
        self.name@
    }

    fn name_ref(&self) -> (r: &String) {
        &self.name
    }
}

impl Stock {
    /// A stock with the given initial equation, no flows and no limits; a text
    /// that is no expression reads as zero.
    pub fn new(name: &str, initial: &str) -> (r: Stock)
        ensures
            r.name@ == name@,
            r.initial@ == equation_tree(initial@),
            r.inflows@.len() == 0,
            r.outflows@.len() == 0,
            r.units is None,
            !r.non_negative,
            r.max_value is None,
            r.dimensions is None,
    {
        Stock {
            name: String::from_str(name),
            initial: equation_or_zero(initial),
            inflows: Vec::new(),
            outflows: Vec::new(),
            units: None,
            non_negative: false,
            max_value: None,
            dimensions: None,
        }
    }

    /// A stock with the given initial equation, no flows and no limits; fails
    /// where the text is no expression, with the error of the reading.
    pub fn try_new(name: &str, initial: &str) -> (r: Result<Stock, ParseError>)
        ensures
            match r {
                Ok(stock) => parsed(initial@) == Ok::<Tree, Failure>(stock.initial@)
                    && stock.name@ == name@ && stock.inflows@.len() == 0
                    && stock.outflows@.len() == 0 && stock.units is None && !stock.non_negative
                    && stock.max_value is None && stock.dimensions is None,
                Err(e) => parsed(initial@) == Err::<Tree, Failure>(e@),
            },
    {
        match Expression::parse(initial) {
            Ok(equation) => Ok(
                Stock {
                    name: String::from_str(name),
                    initial: equation,
                    inflows: Vec::new(),
                    outflows: Vec::new(),
                    units: None,
                    non_negative: false,
                    max_value: None,
                    dimensions: None,
                },
            ),
            Err(e) => Err(e),
        }
    }

    pub fn with_initial(self, initial: Expression) -> (r: Stock)
        ensures
            r == (Stock { initial, ..self }),
    {
        Stock { initial, ..self }
    }

    pub fn with_inflows(self, inflows: Vec<String>) -> (r: Stock)
        ensures
            r == (Stock { inflows, ..self }),
    {
        Stock { inflows, ..self }
    }

    pub fn with_outflows(self, outflows: Vec<String>) -> (r: Stock)
        ensures
            r == (Stock { outflows, ..self }),
    {
        Stock { outflows, ..self }
    }

    pub fn with_units(self, units: &str) -> (r: Stock)
        ensures
            r.units is Some,
            r.units.unwrap()@ == units@,
            r == (Stock { units: r.units, ..self }),
    {
        Stock { units: Some(String::from_str(units)), ..self }
    }

    pub fn with_non_negative(self, non_negative: bool) -> (r: Stock)
        ensures
            r == (Stock { non_negative, ..self }),
    {
        Stock { non_negative, ..self }
    }

    pub fn with_max_value(self, max_value: Number) -> (r: Stock)
        ensures
            r == (Stock { max_value: Some(max_value), ..self }),
    {
        Stock { max_value: Some(max_value), ..self }
    }

    pub fn with_dimensions(self, dimensions: Vec<String>) -> (r: Stock)
        ensures
            r == (Stock { dimensions: Some(dimensions), ..self }),
    {
        Stock { dimensions: Some(dimensions), ..self }
    }

    /// The value that the stock takes when a step proposes `value`: not below
    /// zero where the stock is kept from falling below it, and then not above
    /// the ceiling where there is one.
    pub open spec fn limited(&self, value: Number) -> Number {
        let floored = if self.non_negative {
            value.larger(Number { bits: 0 })
        } else {
            value
        };
        match self.max_value {
            Some(m) => floored.smaller(m),
            None => floored,
        }
    }

    /// Whether `value` respects the limits of the stock as far as they can be
    /// met: it is not above the ceiling where the ceiling is a number, and not
    /// below zero where the stock is kept from falling below zero, unless its
    /// ceiling lies below zero.
    pub open spec fn within_limits(&self, value: Number) -> bool {
        &&& self.max_value matches Some(m) ==> m.nan() || value.at_most(m)
        &&& self.non_negative ==> (Number { bits: 0 }).at_most(value) || (
        self.max_value matches Some(m) && m.below(Number { bits: 0 }))
    }

    /// Applies the limits of the stock to a proposed value.
    pub fn constrain(&self, value: Number) -> (r: Number)
        ensures
            r == self.limited(value),
            self.within_limits(r),
    {
        let floored = if self.non_negative {
            value.max(Number::zero())
        } else {
            value
        };
        match self.max_value {
            Some(m) => floored.min(m),
            None => floored,
        }
    }
}

/// A stock that is kept from falling below zero never holds a limited value
/// below zero, unless its ceiling lies below zero.
pub proof fn lemma_limited_not_negative(stock: Stock, value: Number)
    requires
        stock.non_negative,
        stock.max_value matches Some(m) ==> !m.below(Number { bits: 0 }),
    ensures
        (Number { bits: 0 }).at_most(stock.limited(value)),
{
}

/// A stock whose ceiling is a number never holds a limited value above it.
pub proof fn lemma_limited_below_ceiling(stock: Stock, value: Number)
    requires
        stock.max_value is Some,
        !stock.max_value.unwrap().nan(),
    ensures
        stock.limited(value).at_most(stock.max_value.unwrap()),
{
}

/// What a stock is limited to respects its limits, and limiting it again changes nothing.
pub proof fn lemma_limited_within(stock: Stock, value: Number)
    ensures
        stock.within_limits(stock.limited(value)),
        stock.limited(stock.limited(value)) == stock.limited(value),
{
}

} // verus!
