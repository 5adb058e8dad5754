//! Auxiliaries: quantities derived from others.

use vstd::prelude::*;
use vstd::string::*;
use crate::model::expression::{Expression, Tree};
use crate::model::grammar::{parsed, Failure};
use crate::model::parser::ParseError;
use crate::model::named::Named;
use crate::model::stock::{equation_or_zero, equation_tree};

verus! {

/// An auxiliary: an intermediate quantity given by an equation.
#[derive(Debug, Clone)]
pub struct Auxiliary {
    pub name: String,
    pub equation: Expression,
    pub units: Option<String>,
}

impl Named for Auxiliary {
    open spec fn label(&self) -> Seq<char> {
        self.name@
    }

    fn name_ref(&self) -> (r: &String) {
        &self.name
    }
}

impl Auxiliary {
    /// An auxiliary with the given equation; a text that is no expression reads as zero.
    pub fn new(name: &str, equation: &str) -> (r: Auxiliary)
        ensures
            r.name@ == name@,
            r.equation@ == equation_tree(equation@),
            r.units is None,
    {
        Auxiliary { name: String::from_str(name), equation: equation_or_zero(equation), units: None }
    }

    /// An auxiliary with the given equation; fails where the text is no expression,
    /// with the error of the reading.
    pub fn try_new(name: &str, equation: &str) -> (r: Result<Auxiliary, ParseError>)
        ensures
            match r {
                Ok(made) => parsed(equation@) == Ok::<Tree, Failure>(made.equation@)
                    && made.name@ == name@ && made.units is None,
                Err(e) => parsed(equation@) == Err::<Tree, Failure>(e@),
            },
    {
        match Expression::parse(equation) {
            Ok(read) => Ok(Auxiliary { name: String::from_str(name), equation: read, units: None }),
            Err(e) => Err(e),
        }
    }

    pub fn with_equation(self, equation: Expression) -> (r: Auxiliary)
        ensures
            r == (Auxiliary { equation, ..self }),
    {
        Auxiliary { equation, ..self }
    }

    pub fn with_units(self, units: &str) -> (r: Auxiliary)
        ensures
            r.units is Some,
            r.units.unwrap()@ == units@,
            r == (Auxiliary { units: r.units, ..self }),
    {
        Auxiliary { units: Some(String::from_str(units)), ..self }
    }
}

} // verus!
