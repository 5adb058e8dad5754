//! Parameters: the constants of a model.

use vstd::prelude::*;
use vstd::string::*;
use crate::model::named::Named;
use crate::number::Number;

verus! {

/// A named constant. It may be changed between runs, not during one.
#[derive(Debug, Clone)]
pub struct Parameter {
    pub name: String,
    pub value: Number,
    pub units: Option<String>,
    pub description: Option<String>,
}

impl Named for Parameter {
    open spec fn label(&self) -> Seq<char> {
        self.name@
    }

    fn name_ref(&self) -> (r: &String) {
        &self.name
    }
}

impl Parameter {
    pub fn new(name: &str, value: Number) -> (r: Parameter)
        ensures
            r.name@ == name@,
            r.value == value,
            r.units is None,
            r.description is None,
    {
        Parameter { name: String::from_str(name), value, units: None, description: None }
    }

    pub fn with_units(self, units: &str) -> (r: Parameter)
        ensures
            r.units is Some,
            r.units.unwrap()@ == units@,
            r == (Parameter { units: r.units, ..self }),
    {
        Parameter { units: Some(String::from_str(units)), ..self }
    }

    pub fn with_description(self, description: &str) -> (r: Parameter)
        ensures
            r.description is Some,
            r.description.unwrap()@ == description@,
            r == (Parameter { description: r.description, ..self }),
    {
        Parameter { description: Some(String::from_str(description)), ..self }
    }
}

} // verus!
