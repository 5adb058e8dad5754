//! Models in the InsightMaker format: a list of primitives that name each
//! other by identifiers.

use vstd::prelude::*;
use vstd::string::*;
use crate::io::parser::{
    converts, stands_for, JsonAuxiliary, JsonFlow, JsonInitial, JsonModel, JsonModelContent,
    JsonParameter, JsonStock,
};
use crate::model::{Model, TimeConfig};
use crate::number::Number;
use crate::text::is_text;

verus! {

/// The time span of an InsightMaker model.
#[derive(Debug, Clone)]
pub struct InsightMakerSettings {
    pub start: Number,
    pub stop: Number,
    pub dt: Number,
    pub time_units: Option<String>,
}

/// One element of an InsightMaker model.
#[derive(Debug, Clone)]
pub struct InsightMakerPrimitive {
    pub id: String,
    /// `Stock`, `Flow`, `Converter`, `Variable`, `Constant` or `Parameter`.
    pub primitive_type: String,
    pub name: String,
    /// The value or initial value, as it is written.
    pub value: Option<String>,
    /// The number that the value is, where it is written as one.
    pub number: Option<Number>,
    pub equation: Option<String>,
    pub units: Option<String>,
    /// The identifiers of the flows into a stock.
    pub inflows: Vec<String>,
    /// The identifiers of the flows out of a stock.
    pub outflows: Vec<String>,
}

/// A model in the InsightMaker format.
#[derive(Debug, Clone)]
pub struct InsightMakerModel {
    pub name: String,
    pub settings: InsightMakerSettings,
    pub primitives: Vec<InsightMakerPrimitive>,
}

/// Whether the primitive becomes a parameter: a variable, constant or
/// parameter whose value is a number.
pub open spec fn is_parameter(p: InsightMakerPrimitive) -> bool {
    (p.primitive_type@ == "Variable"@ || p.primitive_type@ == "Constant"@ || p.primitive_type@
        == "Parameter"@) && p.value is Some && p.number is Some
}

pub open spec fn is_stock(p: InsightMakerPrimitive) -> bool {
    p.primitive_type@ == "Stock"@
}

pub open spec fn is_flow(p: InsightMakerPrimitive) -> bool {
    p.primitive_type@ == "Flow"@
}

/// Whether one of the first `count` primitives is a parameter called `name`.
pub open spec fn parameter_named(prims: Seq<InsightMakerPrimitive>, name: Seq<char>, count: int)
    -> bool {
    exists|j: int| 0 <= j < count && j < prims.len() && is_parameter(#[trigger] prims[j])
        && prims[j].name@ == name
}

/// Whether the primitive becomes an auxiliary: a converter or variable with an
/// equation whose name is not that of a parameter.
pub open spec fn is_auxiliary(prims: Seq<InsightMakerPrimitive>, p: InsightMakerPrimitive) -> bool {
    (p.primitive_type@ == "Converter"@ || p.primitive_type@ == "Variable"@) && p.equation is Some
        && !parameter_named(prims, p.name@, prims.len() as int)
}

/// The equation of a stock or flow: its equation, else its value, else zero.
pub open spec fn equation_text(p: InsightMakerPrimitive) -> Seq<char> {
    match p.equation {
        Some(e) => e@,
        None => match p.value {
            Some(v) => v@,
            None => "0"@,
        },
    }
}

/// The name of the last of the first `count` primitives with the identifier.
pub open spec fn name_of(prims: Seq<InsightMakerPrimitive>, id: Seq<char>, count: int) -> Option<
    Seq<char>,
>
    decreases count,
{
    if count <= 0 || count > prims.len() {
        None
    } else if prims[count - 1].id@ == id {
        Some(prims[count - 1].name@)
    } else {
        name_of(prims, id, count - 1)
    }
}

/// The names of the primitives that the first `count` identifiers stand for;
/// an identifier of no primitive is left out.
pub open spec fn names_of_ids(prims: Seq<InsightMakerPrimitive>, ids: Seq<String>, count: int)
    -> Seq<Seq<char>>
    decreases count,
{
    if count <= 0 {
        Seq::empty()
    } else {
        match name_of(prims, ids[count - 1]@, prims.len() as int) {
            Some(name) => names_of_ids(prims, ids, count - 1).push(name),
            None => names_of_ids(prims, ids, count - 1),
        }
    }
}

/// The positions, among the first `count` primitives, of those of a kind:
/// 0 for parameters, 1 for stocks, 2 for flows, 3 for auxiliaries.
pub open spec fn positions(prims: Seq<InsightMakerPrimitive>, kind: int, count: int) -> Seq<int>
    decreases count,
{
    if count <= 0 {
        Seq::empty()
    } else {
        let p = prims[count - 1];
        let keep = if kind == 0 {
            is_parameter(p)
        } else if kind == 1 {
            is_stock(p)
        } else if kind == 2 {
            is_flow(p)
        } else {
            is_auxiliary(prims, p)
        };
        if keep {
            positions(prims, kind, count - 1).push(count - 1)
        } else {
            positions(prims, kind, count - 1)
        }
    }
}

/// The texts of the strings.
pub open spec fn views(v: Seq<String>) -> Seq<Seq<char>> {
    Seq::new(v.len(), |i: int| v[i]@)
}

/// Whether the file model is the one that the InsightMaker model stands for.
pub open spec fn is_file_model_of(im: InsightMakerModel, file: JsonModel) -> bool {
    let prims = im.primitives@;
    let n = prims.len() as int;
    let m = file.model;
    &&& m.name@ == im.name@
    &&& m.description is None
    &&& m.time.start == im.settings.start
    &&& m.time.stop == im.settings.stop
    &&& m.time.dt == im.settings.dt
    &&& m.time.units == im.settings.time_units
    &&& m.parameters@.len() == positions(prims, 0, n).len()
    &&& forall|k: int|
        0 <= k < m.parameters@.len() ==> {
            let p = prims[positions(prims, 0, n)[k]];
            &&& (#[trigger] m.parameters@[k]).name@ == p.name@
            &&& Some(m.parameters@[k].value) == p.number
            &&& m.parameters@[k].units == p.units
            &&& m.parameters@[k].description is None
        }
    &&& m.stocks@.len() == positions(prims, 1, n).len()
    &&& forall|k: int|
        0 <= k < m.stocks@.len() ==> {
            let p = prims[positions(prims, 1, n)[k]];
            &&& (#[trigger] m.stocks@[k]).name@ == p.name@
            &&& m.stocks@[k].initial matches JsonInitial::Text(t) && t@ == equation_text(p)
            &&& views(m.stocks@[k].inflows@) == names_of_ids(
                prims,
                p.inflows@,
                p.inflows@.len() as int,
            )
            &&& views(m.stocks@[k].outflows@) == names_of_ids(
                prims,
                p.outflows@,
                p.outflows@.len() as int,
            )
            &&& m.stocks@[k].units == p.units
            &&& !m.stocks@[k].non_negative
            &&& m.stocks@[k].max_value is None
        }
    &&& m.flows@.len() == positions(prims, 2, n).len()
    &&& forall|k: int|
        0 <= k < m.flows@.len() ==> {
            let p = prims[positions(prims, 2, n)[k]];
            &&& (#[trigger] m.flows@[k]).name@ == p.name@
            &&& m.flows@[k].equation@ == equation_text(p)
            &&& m.flows@[k].units == p.units
        }
    &&& m.auxiliaries@.len() == positions(prims, 3, n).len()
    &&& forall|k: int|
        0 <= k < m.auxiliaries@.len() ==> {
            let p = prims[positions(prims, 3, n)[k]];
            &&& (#[trigger] m.auxiliaries@[k]).name@ == p.name@
            &&& Some(m.auxiliaries@[k].equation@) == match p.equation {
                Some(e) => Some(e@),
                None => None,
            }
            &&& m.auxiliaries@[k].units == p.units
        }
}

fn copy_text(text: &Option<String>) -> (r: Option<String>)
    ensures
        r == *text,
{
    match text {
        Some(s) => Some(s.clone()),
        None => None,
    }
}

fn becomes_parameter(p: &InsightMakerPrimitive) -> (r: bool)
    ensures
        r == is_parameter(*p),
{
    let kind = p.primitive_type.as_str();
    (is_text(kind, "Variable") || is_text(kind, "Constant") || is_text(kind, "Parameter"))
        && p.value.is_some() && p.number.is_some()
}

fn equation_of(p: &InsightMakerPrimitive) -> (r: String)
    ensures
        r@ == equation_text(*p),
{
    match &p.equation {
        Some(e) => e.clone(),
        None => match &p.value {
            Some(v) => v.clone(),
            None => String::from_str("0"),
        },
    }
}

fn name_for(prims: &Vec<InsightMakerPrimitive>, id: &String) -> (r: Option<String>)
    ensures
        match r {
            Some(name) => name_of(prims@, id@, prims@.len() as int) == Some(name@),
            None => name_of(prims@, id@, prims@.len() as int) is None,
        },
{
    let mut k: usize = prims.len();
    while k > 0
        invariant
            k <= prims@.len(),
            name_of(prims@, id@, prims@.len() as int) == name_of(prims@, id@, k as int),
        decreases k,
    {
        if prims[k - 1].id == *id {
            return Some(prims[k - 1].name.clone());
        }
        k -= 1;
    }
    None
}

fn names_for(prims: &Vec<InsightMakerPrimitive>, ids: &Vec<String>) -> (r: Vec<String>)
    ensures
        views(r@) == names_of_ids(prims@, ids@, ids@.len() as int),
{
    let mut names: Vec<String> = Vec::new();
    let mut i: usize = 0;
    assert(views(names@) =~= names_of_ids(prims@, ids@, 0));
    while i < ids.len()
        invariant
            i <= ids@.len(),
            views(names@) == names_of_ids(prims@, ids@, i as int),
        decreases ids@.len() - i,
    {
        if let Some(name) = name_for(prims, &ids[i]) {
            let ghost before = views(names@);
            names.push(name);
            assert(views(names@) =~= before.push(name@));
        }
        i += 1;
    }
    names
}

fn has_parameter_named(prims: &Vec<InsightMakerPrimitive>, name: &String) -> (r: bool)
    ensures
        r == parameter_named(prims@, name@, prims@.len() as int),
{
    let mut j: usize = 0;
    while j < prims.len()
        invariant
            j <= prims@.len(),
            !parameter_named(prims@, name@, j as int),
        decreases prims@.len() - j,
    {
        if becomes_parameter(&prims[j]) && prims[j].name == *name {
            return true;
        }
        j += 1;
    }
    false
}

/// The file model that an InsightMaker model stands for: its parameters are
/// the variables, constants and parameters with a number as value; its stocks
/// and flows have their equation, else their value, else zero, and name their
/// flows by name; its auxiliaries are the converters and variables with an
/// equation that are no parameters.
pub fn to_file_model(im: &InsightMakerModel) -> (r: JsonModel)
    ensures
        is_file_model_of(*im, r),
{
    let prims = &im.primitives;
    let n = prims.len();
    let mut parameters: Vec<JsonParameter> = Vec::new();
    let mut stocks: Vec<JsonStock> = Vec::new();
    let mut flows: Vec<JsonFlow> = Vec::new();
    let mut auxiliaries: Vec<JsonAuxiliary> = Vec::new();
    let mut i: usize = 0;
    while i < n
        invariant
            i <= n,
            n == prims@.len(),
            prims == &im.primitives,
            parameters@.len() == positions(prims@, 0, i as int).len(),
            forall|k: int|
                0 <= k < parameters@.len() ==> {
                    let p = prims@[positions(prims@, 0, i as int)[k]];
                    &&& (#[trigger] parameters@[k]).name@ == p.name@
                    &&& Some(parameters@[k].value) == p.number
                    &&& parameters@[k].units == p.units
                    &&& parameters@[k].description is None
                },
            stocks@.len() == positions(prims@, 1, i as int).len(),
            forall|k: int|
                0 <= k < stocks@.len() ==> {
                    let p = prims@[positions(prims@, 1, i as int)[k]];
                    &&& (#[trigger] stocks@[k]).name@ == p.name@
                    &&& stocks@[k].initial matches JsonInitial::Text(t) && t@ == equation_text(p)
                    &&& views(stocks@[k].inflows@) == names_of_ids(
                        prims@,
                        p.inflows@,
                        p.inflows@.len() as int,
                    )
                    &&& views(stocks@[k].outflows@) == names_of_ids(
                        prims@,
                        p.outflows@,
                        p.outflows@.len() as int,
                    )
                    &&& stocks@[k].units == p.units
                    &&& !stocks@[k].non_negative
                    &&& stocks@[k].max_value is None
                },
            flows@.len() == positions(prims@, 2, i as int).len(),
            forall|k: int|
                0 <= k < flows@.len() ==> {
                    let p = prims@[positions(prims@, 2, i as int)[k]];
                    &&& (#[trigger] flows@[k]).name@ == p.name@
                    &&& flows@[k].equation@ == equation_text(p)
                    &&& flows@[k].units == p.units
                },
            auxiliaries@.len() == positions(prims@, 3, i as int).len(),
            forall|k: int|
                0 <= k < auxiliaries@.len() ==> {
                    let p = prims@[positions(prims@, 3, i as int)[k]];
                    &&& (#[trigger] auxiliaries@[k]).name@ == p.name@
                    &&& Some(auxiliaries@[k].equation@) == match p.equation {
                        Some(e) => Some(e@),
                        None => None,
                    }
                    &&& auxiliaries@[k].units == p.units
                },
        decreases n - i,
    {
        let p = &prims[i];
        let kind = p.primitive_type.as_str();
        if becomes_parameter(p) {
            let value = match p.number {
                Some(v) => v,
                None => Number::zero(),
            };
            parameters.push(
                JsonParameter {
                    name: p.name.clone(),
                    value,
                    units: copy_text(&p.units),
                    description: None,
                },
            );
        }
        if is_text(kind, "Stock") {
            stocks.push(
                JsonStock {
                    name: p.name.clone(),
                    initial: JsonInitial::Text(equation_of(p)),
                    inflows: names_for(prims, &p.inflows),
                    outflows: names_for(prims, &p.outflows),
                    units: copy_text(&p.units),
                    non_negative: false,
                    max_value: None,
                },
            );
        }
        if is_text(kind, "Flow") {
            flows.push(
                JsonFlow { name: p.name.clone(), equation: equation_of(p), units: copy_text(&p.units) },
            );
        }
        if (is_text(kind, "Converter") || is_text(kind, "Variable")) && !has_parameter_named(
            prims,
            &p.name,
        ) {
            if let Some(e) = &p.equation {
                auxiliaries.push(
                    JsonAuxiliary { name: p.name.clone(), equation: e.clone(), units: copy_text(&p.units) },
                );
            }
        }
        i += 1;
    }
    JsonModel {
        model: JsonModelContent {
            name: im.name.clone(),
            description: None,
            time: TimeConfig {
                start: im.settings.start,
                stop: im.settings.stop,
                dt: im.settings.dt,
                units: copy_text(&im.settings.time_units),
            },
            stocks,
            flows,
            auxiliaries,
            parameters,
        },
    }
}

/// The model that an InsightMaker model stands for. Fails where the file model
/// it stands for cannot become a model.
pub fn convert_insightmaker(im: &InsightMakerModel) -> (r: Result<Model, String>)
    ensures
        exists|file: JsonModel|
            is_file_model_of(*im, file) && (r is Ok <==> converts(file)) && (r matches Ok(model)
                ==> stands_for(file, model) && model.names_are_distinct()),
{
    let file = to_file_model(im);
    let ghost seen = file;
    let r = JsonModel::to_model(file);
    assert(is_file_model_of(*im, seen) && (r is Ok <==> converts(seen)));
    r
}

} // verus!
