//! The model of a JSON or YAML file, and the model of the library that it stands for.

use vstd::prelude::*;
use vstd::string::*;
use crate::model::auxiliary::Auxiliary;
use crate::model::expression::{Expression, Tree};
use crate::model::grammar::parsed;
use crate::model::named::{holds, labels};
use crate::model::{Flow, Model, ModelMetadata, Parameter, Stock, TimeConfig};
use crate::number::Number;
use crate::text::clone_strings;

verus! {

/// The initial value of a stock as a file has it.
#[derive(Debug, Clone)]
pub enum JsonInitial {
    /// A number, as it is written.
    Number(String),
    /// An equation.
    Text(String),
    /// Anything else.
    Other,
}

#[derive(Debug, Clone)]
pub struct JsonStock {
    pub name: String,
    pub initial: JsonInitial,
    pub inflows: Vec<String>,
    pub outflows: Vec<String>,
    pub units: Option<String>,
    /// Whether the stock is kept from falling below zero.
    pub non_negative: bool,
    /// The ceiling of the stock, if it has one.
    pub max_value: Option<Number>,
}

#[derive(Debug, Clone)]
pub struct JsonFlow {
    pub name: String,
    pub equation: String,
    pub units: Option<String>,
}

#[derive(Debug, Clone)]
pub struct JsonAuxiliary {
    pub name: String,
    pub equation: String,
    pub units: Option<String>,
}

#[derive(Debug, Clone)]
pub struct JsonParameter {
    pub name: String,
    pub value: Number,
    pub units: Option<String>,
    pub description: Option<String>,
}

#[derive(Debug, Clone)]
pub struct JsonModelContent {
    pub name: String,
    pub description: Option<String>,
    pub time: TimeConfig,
    pub stocks: Vec<JsonStock>,
    pub flows: Vec<JsonFlow>,
    pub auxiliaries: Vec<JsonAuxiliary>,
    pub parameters: Vec<JsonParameter>,
}

/// A model as a file has it.
#[derive(Debug, Clone)]
pub struct JsonModel {
    pub model: JsonModelContent,
}

/// The text of an initial value, where it has one.
pub open spec fn initial_text(initial: JsonInitial) -> Option<Seq<char>> {
    match initial {
        JsonInitial::Number(n) => Some(n@),
        JsonInitial::Text(s) => Some(s@),
        JsonInitial::Other => None,
    }
}

/// Whether the stock of the file is the stock of the model.
pub open spec fn stock_matches(from: JsonStock, to: Stock) -> bool {
    &&& to.name@ == from.name@
    &&& initial_text(from.initial) matches Some(text) && parsed(text) == Ok::<
        Tree,
        crate::model::grammar::Failure,
    >(to.initial@)
    &&& to.inflows@ == from.inflows@
    &&& to.outflows@ == from.outflows@
    &&& to.units == from.units
    &&& to.non_negative == from.non_negative
    &&& to.max_value == from.max_value
    &&& to.dimensions is None
}

/// Whether the stock of the file can become a stock of a model.
pub open spec fn stock_reads(from: JsonStock) -> bool {
    initial_text(from.initial) matches Some(text) && parsed(text) is Ok
}

/// Whether the parameter of the file is the parameter of the model.
pub open spec fn parameter_matches(from: JsonParameter, to: Parameter) -> bool {
    to.name@ == from.name@ && to.value == from.value && to.units == from.units && to.description
        == from.description
}

/// The names of the stocks of a file.
pub open spec fn stock_names(v: Seq<JsonStock>) -> Seq<Seq<char>> {
    Seq::new(v.len(), |i: int| v[i].name@)
}

/// The names of the flows of a file.
pub open spec fn flow_names(v: Seq<JsonFlow>) -> Seq<Seq<char>> {
    Seq::new(v.len(), |i: int| v[i].name@)
}

/// The names of the auxiliaries of a file.
pub open spec fn auxiliary_names(v: Seq<JsonAuxiliary>) -> Seq<Seq<char>> {
    Seq::new(v.len(), |i: int| v[i].name@)
}

/// The names of the parameters of a file.
pub open spec fn parameter_names(v: Seq<JsonParameter>) -> Seq<Seq<char>> {
    Seq::new(v.len(), |i: int| v[i].name@)
}

/// Whether the model of a file can become a model: within each kind the names
/// differ, and every equation is an expression.
pub open spec fn converts(json: JsonModel) -> bool {
    let m = json.model;
    &&& parameter_names(m.parameters@).no_duplicates()
    &&& stock_names(m.stocks@).no_duplicates()
    &&& flow_names(m.flows@).no_duplicates()
    &&& auxiliary_names(m.auxiliaries@).no_duplicates()
    &&& forall|i: int| 0 <= i < m.stocks@.len() ==> stock_reads(#[trigger] m.stocks@[i])
    &&& forall|i: int| 0 <= i < m.flows@.len() ==> parsed((#[trigger] m.flows@[i]).equation@) is Ok
    &&& forall|i: int|
        0 <= i < m.auxiliaries@.len() ==> parsed((#[trigger] m.auxiliaries@[i]).equation@) is Ok
}

/// Whether the model is the one that the file stands for.
pub open spec fn stands_for(json: JsonModel, model: Model) -> bool {
    let m = json.model;
    &&& model.info().name@ == m.name@
    &&& model.info().description == m.description
    &&& model.info().author is None
    &&& model.time_config() == m.time
    &&& model.parameter_list().len() == m.parameters@.len()
    &&& forall|i: int|
        0 <= i < m.parameters@.len() ==> parameter_matches(
            m.parameters@[i],
            #[trigger] model.parameter_list()[i],
        )
    &&& model.stock_list().len() == m.stocks@.len()
    &&& forall|i: int|
        0 <= i < m.stocks@.len() ==> stock_matches(m.stocks@[i], #[trigger] model.stock_list()[i])
    &&& model.flow_list().len() == m.flows@.len()
    &&& forall|i: int|
        0 <= i < m.flows@.len() ==> (#[trigger] model.flow_list()[i]).name@ == m.flows@[i].name@
            && parsed(m.flows@[i].equation@) == Ok::<Tree, crate::model::grammar::Failure>(
            model.flow_list()[i].equation@,
        ) && model.flow_list()[i].units == m.flows@[i].units
    &&& model.auxiliary_list().len() == m.auxiliaries@.len()
    &&& forall|i: int|
        0 <= i < m.auxiliaries@.len() ==> (#[trigger] model.auxiliary_list()[i]).name@
            == m.auxiliaries@[i].name@ && parsed(m.auxiliaries@[i].equation@) == Ok::<
            Tree,
            crate::model::grammar::Failure,
        >(model.auxiliary_list()[i].equation@) && model.auxiliary_list()[i].units
            == m.auxiliaries@[i].units
    &&& model.dimension_list().len() == 0
    &&& model.lookup_list().len() == 0
}

fn copy_text(text: &Option<String>) -> (r: Option<String>)
    ensures
        r == *text,
{
    match text {
        Some(s) => Some(s.clone()),
        None => None,
    }
}

/// A name that a list holds at an earlier place makes the list hold it twice.
proof fn lemma_repeats(names: Seq<Seq<char>>, i: int, j: int)
    requires
        0 <= j < i < names.len(),
        names[j] == names[i],
    ensures
        !names.no_duplicates(),
{
}

impl JsonModel {
    /// The model that the file stands for: its parameters, then its stocks,
    /// flows and auxiliaries, each with its equation read. Fails where two
    /// elements of a kind have the same name, where an equation is no
    /// expression, and where an initial value is neither a number nor a text.
    pub fn to_model(json: JsonModel) -> (r: Result<Model, String>)
        ensures
            r is Ok <==> converts(json),
            r matches Ok(model) ==> stands_for(json, model) && model.names_are_distinct(),
    {
        let content = &json.model;
        let mut model = Model::new(content.name.as_str());
        model.set_metadata(
            ModelMetadata {
                name: content.name.clone(),
                description: copy_text(&content.description),
                author: None,
            },
        );
        model.set_time(
            TimeConfig {
                start: content.time.start,
                stop: content.time.stop,
                dt: content.time.dt,
                units: copy_text(&content.time.units),
            },
        );
        let ghost info = model.info();
        let ghost time = model.time_config();
        let ghost pn = parameter_names(content.parameters@);
        let mut i: usize = 0;
        while i < content.parameters.len()
            invariant
                i <= content.parameters@.len(),
                content == &json.model,
                pn == parameter_names(content.parameters@),
                model.info() == info,
                model.time_config() == time,
                model.names_are_distinct(),
                model.stock_list().len() == 0,
                model.flow_list().len() == 0,
                model.auxiliary_list().len() == 0,
                model.dimension_list().len() == 0,
                model.lookup_list().len() == 0,
                model.parameter_list().len() == i,
                forall|k: int|
                    0 <= k < i ==> parameter_matches(
                        content.parameters@[k],
                        #[trigger] model.parameter_list()[k],
                    ),
                forall|a: int, b: int| 0 <= a < b < i ==> pn[a] != pn[b],
            decreases content.parameters@.len() - i,
        {
            let p = &content.parameters[i];
            let parameter = Parameter {
                name: p.name.clone(),
                value: p.value,
                units: copy_text(&p.units),
                description: copy_text(&p.description),
            };
            let ghost before = model.parameter_list();
            match model.add_parameter(parameter) {
                Ok(_) => {
                    assert forall|a: int, b: int| 0 <= a < b < i + 1 implies pn[a] != pn[b] by {
                        if b == i {
                            assert(before[a].name@ == pn[a]);
                        }
                    }
                },
                Err(msg) => {
                    proof {
                        let j = choose|j: int|
                            0 <= j < before.len() && (#[trigger] before[j]).name@ == p.name@;
                        assert(pn[j] == before[j].name@);
                        lemma_repeats(pn, i as int, j);
                    }
                    return Err(msg);
                },
            }
            i += 1;
        }
        let ghost sn = stock_names(content.stocks@);
        let mut i: usize = 0;
        while i < content.stocks.len()
            invariant
                i <= content.stocks@.len(),
                content == &json.model,
                sn == stock_names(content.stocks@),
                pn == parameter_names(content.parameters@),
                pn.no_duplicates(),
                model.info() == info,
                model.time_config() == time,
                model.names_are_distinct(),
                model.flow_list().len() == 0,
                model.auxiliary_list().len() == 0,
                model.dimension_list().len() == 0,
                model.lookup_list().len() == 0,
                model.parameter_list().len() == content.parameters@.len(),
                forall|k: int|
                    0 <= k < content.parameters@.len() ==> parameter_matches(
                        content.parameters@[k],
                        #[trigger] model.parameter_list()[k],
                    ),
                model.stock_list().len() == i,
                forall|k: int|
                    0 <= k < i ==> stock_matches(
                        content.stocks@[k],
                        #[trigger] model.stock_list()[k],
                    ),
                forall|k: int| 0 <= k < i ==> stock_reads(#[trigger] content.stocks@[k]),
                forall|a: int, b: int| 0 <= a < b < i ==> sn[a] != sn[b],
            decreases content.stocks@.len() - i,
        {
            let s = &content.stocks[i];
            let read = match &s.initial {
                JsonInitial::Number(n) => Expression::parse(n.as_str()),
                JsonInitial::Text(t) => Expression::parse(t.as_str()),
                JsonInitial::Other => {
                    assert(!stock_reads(content.stocks@[i as int]));
                    return Err(String::from_str("Initial value must be number or string"));
                },
            };
            let initial = match read {
                Ok(e) => e,
                Err(e) => {
                    assert(!stock_reads(content.stocks@[i as int]));
                    return Err(e.message());
                },
            };
            let stock = Stock {
                name: s.name.clone(),
                initial,
                inflows: clone_strings(&s.inflows),
                outflows: clone_strings(&s.outflows),
                units: copy_text(&s.units),
                non_negative: s.non_negative,
                max_value: s.max_value,
                dimensions: None,
            };
            let ghost before = model.stock_list();
            match model.add_stock(stock) {
                Ok(_) => {
                    assert forall|a: int, b: int| 0 <= a < b < i + 1 implies sn[a] != sn[b] by {
                        if b == i {
                            assert(before[a].name@ == sn[a]);
                        }
                    }
                },
                Err(msg) => {
                    proof {
                        let j = choose|j: int|
                            0 <= j < before.len() && (#[trigger] before[j]).name@ == s.name@;
                        assert(sn[j] == before[j].name@);
                        lemma_repeats(sn, i as int, j);
                    }
                    return Err(msg);
                },
            }
            i += 1;
        }
        let ghost stocks_done = model.stock_list();
        let ghost parameters_done = model.parameter_list();
        let ghost fnames = flow_names(content.flows@);
        let mut i: usize = 0;
        while i < content.flows.len()
            invariant
                i <= content.flows@.len(),
                content == &json.model,
                fnames == flow_names(content.flows@),
                model.info() == info,
                model.time_config() == time,
                model.names_are_distinct(),
                model.stock_list() == stocks_done,
                model.parameter_list() == parameters_done,
                model.auxiliary_list().len() == 0,
                model.dimension_list().len() == 0,
                model.lookup_list().len() == 0,
                model.flow_list().len() == i,
                forall|k: int|
                    0 <= k < i ==> (#[trigger] model.flow_list()[k]).name@
                        == content.flows@[k].name@ && parsed(content.flows@[k].equation@) == Ok::<
                        Tree,
                        crate::model::grammar::Failure,
                    >(model.flow_list()[k].equation@) && model.flow_list()[k].units
                        == content.flows@[k].units,
                forall|k: int| 0 <= k < i ==> parsed((#[trigger] content.flows@[k]).equation@) is Ok,
                forall|a: int, b: int| 0 <= a < b < i ==> fnames[a] != fnames[b],
            decreases content.flows@.len() - i,
        {
            let f = &content.flows[i];
            let equation = match Expression::parse(f.equation.as_str()) {
                Ok(e) => e,
                Err(e) => {
                    return Err(e.message());
                },
            };
            let flow = Flow { name: f.name.clone(), equation, units: copy_text(&f.units) };
            let ghost before = model.flow_list();
            match model.add_flow(flow) {
                Ok(_) => {
                    assert forall|a: int, b: int| 0 <= a < b < i + 1 implies fnames[a]
                        != fnames[b] by {
                        if b == i {
                            assert(before[a].name@ == fnames[a]);
                        }
                    }
                },
                Err(msg) => {
                    proof {
                        let j = choose|j: int|
                            0 <= j < before.len() && (#[trigger] before[j]).name@ == f.name@;
                        assert(fnames[j] == before[j].name@);
                        lemma_repeats(fnames, i as int, j);
                    }
                    return Err(msg);
                },
            }
            i += 1;
        }
        let ghost flows_done = model.flow_list();
        let ghost anames = auxiliary_names(content.auxiliaries@);
        let mut i: usize = 0;
        while i < content.auxiliaries.len()
            invariant
                i <= content.auxiliaries@.len(),
                content == &json.model,
                anames == auxiliary_names(content.auxiliaries@),
                model.info() == info,
                model.time_config() == time,
                model.names_are_distinct(),
                model.stock_list() == stocks_done,
                model.parameter_list() == parameters_done,
                model.flow_list() == flows_done,
                model.dimension_list().len() == 0,
                model.lookup_list().len() == 0,
                model.auxiliary_list().len() == i,
                forall|k: int|
                    0 <= k < i ==> (#[trigger] model.auxiliary_list()[k]).name@
                        == content.auxiliaries@[k].name@ && parsed(
                        content.auxiliaries@[k].equation@,
                    ) == Ok::<Tree, crate::model::grammar::Failure>(
                        model.auxiliary_list()[k].equation@,
                    ) && model.auxiliary_list()[k].units == content.auxiliaries@[k].units,
                forall|k: int|
                    0 <= k < i ==> parsed((#[trigger] content.auxiliaries@[k]).equation@) is Ok,
                forall|a: int, b: int| 0 <= a < b < i ==> anames[a] != anames[b],
            decreases content.auxiliaries@.len() - i,
        {
            let a = &content.auxiliaries[i];
            let equation = match Expression::parse(a.equation.as_str()) {
                Ok(e) => e,
                Err(e) => {
                    return Err(e.message());
                },
            };
            let auxiliary = Auxiliary { name: a.name.clone(), equation, units: copy_text(&a.units) };
            let ghost before = model.auxiliary_list();
            match model.add_auxiliary(auxiliary) {
                Ok(_) => {
                    assert forall|x: int, y: int| 0 <= x < y < i + 1 implies anames[x]
                        != anames[y] by {
                        if y == i {
                            assert(before[x].name@ == anames[x]);
                        }
                    }
                },
                Err(msg) => {
                    proof {
                        let j = choose|j: int|
                            0 <= j < before.len() && (#[trigger] before[j]).name@ == a.name@;
                        assert(anames[j] == before[j].name@);
                        lemma_repeats(anames, i as int, j);
                    }
                    return Err(msg);
                },
            }
            i += 1;
        }
        Ok(model)
    }
}

} // verus!
