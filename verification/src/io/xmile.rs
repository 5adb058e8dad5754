//! Models in the XMILE format, read from the events of an XML text: start
//! tags, end tags and the texts between them.

use vstd::prelude::*;
use vstd::string::*;
use crate::io::parser::{
    converts, stands_for, JsonAuxiliary, JsonFlow, JsonInitial, JsonModel, JsonModelContent,
    JsonStock,
};
use crate::model::{Model, TimeConfig, HUNDRED_BITS, QUARTER_BITS};
use crate::number::Number;
use crate::text::{clone_strings, is_text};

verus! {

/// One event of an XML text.
#[derive(Debug, Clone)]
pub enum XmlEvent {
    /// A start tag or an empty element: the tag, and its attribute `name`.
    Open { tag: String, name: Option<String> },
    /// An end tag.
    Close { tag: String },
    /// A text, and the number it is where it is written as one.
    Text { text: String, number: Option<Number> },
    /// The end of the XML text.
    Eof,
    /// A fault of the XML text: what is said of it with its place, and without.
    Fault { located: String, plain: String },
    /// Anything else: a comment, a declaration.
    Other,
}

/// Why the reading of an XMILE text failed.
#[derive(Debug, Clone)]
pub enum XmileFault {
    /// The text ended inside the simulation specifications.
    UnexpectedEnd,
    /// The XML text has a fault; what is said of it.
    Fault(String),
}

/// What the reader expects the next event to be the text of.
#[derive(Debug, Clone, Copy, PartialEq, Eq, Structural)]
pub enum Awaited {
    Nothing,
    ModelName,
    Max,
    Equation,
    Inflow,
    Outflow,
    Start,
    Stop,
    Dt,
}

/// A stock, flow or auxiliary as it was read so far.
pub struct ItemView {
    pub name: Option<String>,
    pub eqn: Option<String>,
    pub inflows: Seq<String>,
    pub outflows: Seq<String>,
    pub non_negative: bool,
    pub max_value: Option<Number>,
}

/// A stock, flow or auxiliary as it was read so far.
#[derive(Debug, Clone)]
pub struct XmileItem {
    pub name: Option<String>,
    pub eqn: Option<String>,
    pub inflows: Vec<String>,
    pub outflows: Vec<String>,
    pub non_negative: bool,
    pub max_value: Option<Number>,
}

impl View for XmileItem {
    type V = ItemView;

    open spec fn view(&self) -> ItemView {
        ItemView {
            name: self.name,
            eqn: self.eqn,
            inflows: self.inflows@,
            outflows: self.outflows@,
            non_negative: self.non_negative,
            max_value: self.max_value,
        }
    }
}

/// The items as mathematical values.
pub open spec fn item_views(items: Seq<XmileItem>) -> Seq<ItemView> {
    Seq::new(items.len(), |i: int| items[i]@)
}

pub open spec fn item_view(item: Option<XmileItem>) -> Option<ItemView> {
    match item {
        Some(i) => Some(i@),
        None => None,
    }
}

/// What was read of an XMILE text so far.
pub struct ReaderView {
    pub name: Option<String>,
    pub start: Option<Number>,
    pub stop: Option<Number>,
    pub dt: Option<Number>,
    /// The time span, once the simulation specifications gave all of it.
    pub span: Option<(Number, Number, Number)>,
    pub in_model: bool,
    pub in_variables: bool,
    pub in_specs: bool,
    pub stock: Option<ItemView>,
    pub flow: Option<ItemView>,
    pub aux: Option<ItemView>,
    pub stocks: Seq<ItemView>,
    pub flows: Seq<ItemView>,
    pub auxs: Seq<ItemView>,
    pub awaited: Awaited,
    pub done: bool,
    pub failure: Option<XmileFault>,
}

/// A new item under the name of its tag.
pub open spec fn fresh(name: Option<String>) -> ItemView {
    ItemView {
        name,
        eqn: None,
        inflows: Seq::empty(),
        outflows: Seq::empty(),
        non_negative: false,
        max_value: None,
    }
}

/// What was read after the awaited text has come.
pub open spec fn filled(s: ReaderView, text: String, number: Option<Number>) -> ReaderView {
    let r = ReaderView { awaited: Awaited::Nothing, ..s };
    match s.awaited {
        Awaited::Nothing => r,
        Awaited::ModelName => ReaderView { name: Some(text), ..r },
        Awaited::Max => match (s.stock, number) {
            (Some(stock), Some(n)) => ReaderView {
                stock: Some(ItemView { max_value: Some(n), ..stock }),
                ..r
            },
            _ => r,
        },
        Awaited::Equation => match s.stock {
            Some(stock) => ReaderView { stock: Some(ItemView { eqn: Some(text), ..stock }), ..r },
            None => match s.flow {
                Some(flow) => ReaderView { flow: Some(ItemView { eqn: Some(text), ..flow }), ..r },
                None => match s.aux {
                    Some(aux) => ReaderView { aux: Some(ItemView { eqn: Some(text), ..aux }), ..r },
                    None => r,
                },
            },
        },
        Awaited::Inflow => match s.stock {
            Some(stock) => ReaderView {
                stock: Some(ItemView { inflows: stock.inflows.push(text), ..stock }),
                ..r
            },
            None => r,
        },
        Awaited::Outflow => match s.stock {
            Some(stock) => ReaderView {
                stock: Some(ItemView { outflows: stock.outflows.push(text), ..stock }),
                ..r
            },
            None => r,
        },
        Awaited::Start => ReaderView { start: number, ..r },
        Awaited::Stop => ReaderView { stop: number, ..r },
        Awaited::Dt => ReaderView { dt: number, ..r },
    }
}

/// What was read after a start tag inside the simulation specifications.
pub open spec fn opened_in_specs(s: ReaderView, tag: Seq<char>) -> ReaderView {
    if tag == "start"@ {
        ReaderView { awaited: Awaited::Start, ..s }
    } else if tag == "stop"@ {
        ReaderView { awaited: Awaited::Stop, ..s }
    } else if tag == "dt"@ {
        ReaderView { awaited: Awaited::Dt, ..s }
    } else {
        s
    }
}

/// What was read after a start tag elsewhere.
pub open spec fn opened(s: ReaderView, tag: Seq<char>, name: Option<String>) -> ReaderView {
    if tag == "name"@ {
        if !s.in_model {
            ReaderView { awaited: Awaited::ModelName, ..s }
        } else {
            s
        }
    } else if tag == "sim_specs"@ {
        ReaderView { in_specs: true, start: None, stop: None, dt: None, ..s }
    } else if tag == "model"@ {
        ReaderView { in_model: true, ..s }
    } else if tag == "variables"@ {
        ReaderView { in_variables: true, ..s }
    } else if tag == "stock"@ {
        if s.in_variables {
            ReaderView { stock: Some(fresh(name)), ..s }
        } else {
            s
        }
    } else if tag == "non_negative"@ {
        match s.stock {
            Some(stock) => ReaderView {
                stock: Some(ItemView { non_negative: true, ..stock }),
                ..s
            },
            None => s,
        }
    } else if tag == "max"@ {
        if s.stock is Some {
            ReaderView { awaited: Awaited::Max, ..s }
        } else {
            s
        }
    } else if tag == "flow"@ {
        if s.in_variables {
            ReaderView { flow: Some(fresh(name)), ..s }
        } else {
            s
        }
    } else if tag == "aux"@ {
        if s.in_variables {
            ReaderView { aux: Some(fresh(name)), ..s }
        } else {
            s
        }
    } else if tag == "eqn"@ {
        ReaderView { awaited: Awaited::Equation, ..s }
    } else if tag == "inflow"@ {
        if s.stock is Some {
            ReaderView { awaited: Awaited::Inflow, ..s }
        } else {
            s
        }
    } else if tag == "outflow"@ {
        if s.stock is Some {
            ReaderView { awaited: Awaited::Outflow, ..s }
        } else {
            s
        }
    } else {
        s
    }
}

/// What was read after an end tag outside the simulation specifications.
pub open spec fn closed(s: ReaderView, tag: Seq<char>) -> ReaderView {
    if tag == "stock"@ {
        match s.stock {
            Some(stock) => ReaderView { stocks: s.stocks.push(stock), stock: None, ..s },
            None => s,
        }
    } else if tag == "flow"@ {
        match s.flow {
            Some(flow) => ReaderView { flows: s.flows.push(flow), flow: None, ..s },
            None => s,
        }
    } else if tag == "aux"@ {
        match s.aux {
            Some(aux) => ReaderView { auxs: s.auxs.push(aux), aux: None, ..s },
            None => s,
        }
    } else if tag == "variables"@ {
        ReaderView { in_variables: false, ..s }
    } else if tag == "model"@ {
        ReaderView { in_model: false, ..s }
    } else {
        s
    }
}

/// What was read after the end of the simulation specifications: the time span
/// is taken where the start, the stop and the step were all given as numbers.
pub open spec fn specs_closed(s: ReaderView) -> ReaderView {
    let r = ReaderView { in_specs: false, ..s };
    match (s.start, s.stop, s.dt) {
        (Some(a), Some(b), Some(c)) => ReaderView { span: Some((a, b, c)), ..r },
        _ => r,
    }
}

/// What was read after one more event. Once the end or a fault has come,
/// nothing changes any more. An event that comes where a text is awaited is
/// used up: a text fills what awaits it, anything else is dropped.
pub open spec fn stepped(s: ReaderView, e: XmlEvent) -> ReaderView {
    if s.done {
        s
    } else if e is Eof {
        if s.in_specs {
            ReaderView { done: true, failure: Some(XmileFault::UnexpectedEnd), ..s }
        } else {
            ReaderView { done: true, ..s }
        }
    } else if s.awaited != Awaited::Nothing {
        match e {
            XmlEvent::Text { text, number } => filled(s, text, number),
            _ => ReaderView { awaited: Awaited::Nothing, ..s },
        }
    } else if s.in_specs {
        match e {
            XmlEvent::Open { tag, name } => opened_in_specs(s, tag@),
            XmlEvent::Close { tag } => if tag@ == "sim_specs"@ {
                specs_closed(s)
            } else {
                s
            },
            XmlEvent::Fault { located, plain } => ReaderView {
                done: true,
                failure: Some(XmileFault::Fault(plain)),
                ..s
            },
            _ => s,
        }
    } else {
        match e {
            XmlEvent::Open { tag, name } => opened(s, tag@, name),
            XmlEvent::Close { tag } => closed(s, tag@),
            XmlEvent::Fault { located, plain } => ReaderView {
                done: true,
                failure: Some(XmileFault::Fault(located)),
                ..s
            },
            _ => s,
        }
    }
}

/// What was read after the first `count` events.
pub open spec fn read(events: Seq<XmlEvent>, count: int) -> ReaderView
    decreases count,
{
    if count <= 0 {
        nothing_read()
    } else {
        stepped(read(events, count - 1), events[count - 1])
    }
}

/// What was read before the first event.
pub open spec fn nothing_read() -> ReaderView {
    ReaderView {
        name: None,
        start: None,
        stop: None,
        dt: None,
        span: None,
        in_model: false,
        in_variables: false,
        in_specs: false,
        stock: None,
        flow: None,
        aux: None,
        stocks: Seq::empty(),
        flows: Seq::empty(),
        auxs: Seq::empty(),
        awaited: Awaited::Nothing,
        done: false,
        failure: None,
    }
}

/// The text of an optional string: empty where there is none.
pub open spec fn text_or_empty(text: Option<String>) -> Seq<char> {
    match text {
        Some(t) => t@,
        None => Seq::empty(),
    }
}

/// Whether the file model is the one that was read: the name read, or
/// `Untitled Model`; the time span read, or the default span; and the stocks,
/// flows and auxiliaries in the order in which their end tags came.
pub open spec fn is_file_model_read(s: ReaderView, file: JsonModel) -> bool {
    let m = file.model;
    &&& m.name@ == match s.name {
        Some(n) => n@,
        None => "Untitled Model"@,
    }
    &&& m.description is None
    &&& m.time.units is None
    &&& match s.span {
        Some((a, b, c)) => m.time.start == a && m.time.stop == b && m.time.dt == c,
        None => m.time.start.bits == 0 && m.time.stop.bits == HUNDRED_BITS && m.time.dt.bits
            == QUARTER_BITS,
    }
    &&& m.parameters@.len() == 0
    &&& m.stocks@.len() == s.stocks.len()
    &&& forall|k: int|
        0 <= k < m.stocks@.len() ==> {
            &&& (#[trigger] m.stocks@[k]).name@ == text_or_empty(s.stocks[k].name)
            &&& m.stocks@[k].initial matches JsonInitial::Text(t) && t@ == text_or_empty(
                s.stocks[k].eqn,
            )
            &&& m.stocks@[k].inflows@ == s.stocks[k].inflows
            &&& m.stocks@[k].outflows@ == s.stocks[k].outflows
            &&& m.stocks@[k].units is None
            &&& m.stocks@[k].non_negative == s.stocks[k].non_negative
            &&& m.stocks@[k].max_value == s.stocks[k].max_value
        }
    &&& m.flows@.len() == s.flows.len()
    &&& forall|k: int|
        0 <= k < m.flows@.len() ==> (#[trigger] m.flows@[k]).name@ == text_or_empty(
            s.flows[k].name,
        ) && m.flows@[k].equation@ == text_or_empty(s.flows[k].eqn) && m.flows@[k].units is None
    &&& m.auxiliaries@.len() == s.auxs.len()
    &&& forall|k: int|
        0 <= k < m.auxiliaries@.len() ==> (#[trigger] m.auxiliaries@[k]).name@ == text_or_empty(
            s.auxs[k].name,
        ) && m.auxiliaries@[k].equation@ == text_or_empty(s.auxs[k].eqn)
            && m.auxiliaries@[k].units is None
}

/// The reader of an XMILE text: it takes the events one by one.
#[derive(Debug, Clone)]
pub struct XmileReader {
    name: Option<String>,
    start: Option<Number>,
    stop: Option<Number>,
    dt: Option<Number>,
    span: Option<(Number, Number, Number)>,
    in_model: bool,
    in_variables: bool,
    in_specs: bool,
    current_stock: Option<XmileItem>,
    current_flow: Option<XmileItem>,
    current_aux: Option<XmileItem>,
    stocks: Vec<XmileItem>,
    flows: Vec<XmileItem>,
    auxs: Vec<XmileItem>,
    awaited: Awaited,
    done: bool,
    failure: Option<XmileFault>,
}

fn copy_text(text: &Option<String>) -> (r: Option<String>)
    ensures
        r == *text,
{
    match text {
        Some(s) => Some(s.clone()),
        None => None,
    }
}

fn fresh_item(name: &Option<String>) -> (r: XmileItem)
    ensures
        r@ == fresh(*name),
{
    let r = XmileItem {
        name: copy_text(name),
        eqn: None,
        inflows: Vec::new(),
        outflows: Vec::new(),
        non_negative: false,
        max_value: None,
    };
    assert(r@.inflows =~= Seq::<String>::empty());
    assert(r@.outflows =~= Seq::<String>::empty());
    r
}

fn text_or_default(text: &Option<String>) -> (r: String)
    ensures
        r@ == text_or_empty(*text),
{
    match text {
        Some(t) => t.clone(),
        None => String::new(),
    }
}

impl View for XmileReader {
    type V = ReaderView;

    closed spec fn view(&self) -> ReaderView {
        ReaderView {
            name: self.name,
            start: self.start,
            stop: self.stop,
            dt: self.dt,
            span: self.span,
            in_model: self.in_model,
            in_variables: self.in_variables,
            in_specs: self.in_specs,
            stock: item_view(self.current_stock),
            flow: item_view(self.current_flow),
            aux: item_view(self.current_aux),
            stocks: item_views(self.stocks@),
            flows: item_views(self.flows@),
            auxs: item_views(self.auxs@),
            awaited: self.awaited,
            done: self.done,
            failure: self.failure,
        }
    }
}

impl XmileReader {
    /// A reader that has read nothing.
    pub fn new() -> (r: XmileReader)
        ensures
            r@ == nothing_read(),
    {
        let r = XmileReader {
            name: None,
            start: None,
            stop: None,
            dt: None,
            span: None,
            in_model: false,
            in_variables: false,
            in_specs: false,
            current_stock: None,
            current_flow: None,
            current_aux: None,
            stocks: Vec::new(),
            flows: Vec::new(),
            auxs: Vec::new(),
            awaited: Awaited::Nothing,
            done: false,
            failure: None,
        };
        assert(item_views(r.stocks@) =~= Seq::<ItemView>::empty());
        assert(item_views(r.flows@) =~= Seq::<ItemView>::empty());
        assert(item_views(r.auxs@) =~= Seq::<ItemView>::empty());
        r
    }

    /// Whether the end of the text or a fault has come.
    pub fn is_done(&self) -> (r: bool)
        ensures
            r == self@.done,
    {
        self.done
    }

    fn fill(&mut self, text: &String, number: Option<Number>)
        ensures
            final(self)@ == filled(old(self)@, *text, number),
    {
        let awaited = self.awaited;
        self.awaited = Awaited::Nothing;
        match awaited {
            Awaited::Nothing => {},
            Awaited::ModelName => {
                self.name = Some(text.clone());
            },
            Awaited::Max => {
                if let Some(n) = number {
                    if let Some(stock) = self.current_stock.take() {
                        self.current_stock = Some(XmileItem { max_value: Some(n), ..stock });
                    }
                }
            },
            Awaited::Equation => {
                if let Some(stock) = self.current_stock.take() {
                    self.current_stock = Some(XmileItem { eqn: Some(text.clone()), ..stock });
                } else if let Some(flow) = self.current_flow.take() {
                    self.current_flow = Some(XmileItem { eqn: Some(text.clone()), ..flow });
                } else if let Some(aux) = self.current_aux.take() {
                    self.current_aux = Some(XmileItem { eqn: Some(text.clone()), ..aux });
                }
            },
            Awaited::Inflow => {
                if let Some(stock) = self.current_stock.take() {
                    let mut stock = stock;
                    stock.inflows.push(text.clone());
                    self.current_stock = Some(stock);
                }
            },
            Awaited::Outflow => {
                if let Some(stock) = self.current_stock.take() {
                    let mut stock = stock;
                    stock.outflows.push(text.clone());
                    self.current_stock = Some(stock);
                }
            },
            Awaited::Start => {
                self.start = number;
            },
            Awaited::Stop => {
                self.stop = number;
            },
            Awaited::Dt => {
                self.dt = number;
            },
        }
    }

    fn open(&mut self, tag: &str, name: &Option<String>)
        ensures
            final(self)@ == opened(old(self)@, tag@, *name),
    {
        if is_text(tag, "name") {
            if !self.in_model {
                self.awaited = Awaited::ModelName;
            }
        } else if is_text(tag, "sim_specs") {
            self.in_specs = true;
            self.start = None;
            self.stop = None;
            self.dt = None;
        } else if is_text(tag, "model") {
            self.in_model = true;
        } else if is_text(tag, "variables") {
            self.in_variables = true;
        } else if is_text(tag, "stock") {
            if self.in_variables {
                self.current_stock = Some(fresh_item(name));
            }
        } else if is_text(tag, "non_negative") {
            if let Some(stock) = self.current_stock.take() {
                self.current_stock = Some(XmileItem { non_negative: true, ..stock });
            }
        } else if is_text(tag, "max") {
            if self.current_stock.is_some() {
                self.awaited = Awaited::Max;
            }
        } else if is_text(tag, "flow") {
            if self.in_variables {
                self.current_flow = Some(fresh_item(name));
            }
        } else if is_text(tag, "aux") {
            if self.in_variables {
                self.current_aux = Some(fresh_item(name));
            }
        } else if is_text(tag, "eqn") {
            self.awaited = Awaited::Equation;
        } else if is_text(tag, "inflow") {
            if self.current_stock.is_some() {
                self.awaited = Awaited::Inflow;
            }
        } else if is_text(tag, "outflow") {
            if self.current_stock.is_some() {
                self.awaited = Awaited::Outflow;
            }
        }
    }

    fn close(&mut self, tag: &str)
        ensures
            final(self)@ == closed(old(self)@, tag@),
    {
        if is_text(tag, "stock") {
            if let Some(stock) = self.current_stock.take() {
                let ghost before = item_views(self.stocks@);
                self.stocks.push(stock);
                assert(item_views(self.stocks@) =~= before.push(stock@));
            }
        } else if is_text(tag, "flow") {
            if let Some(flow) = self.current_flow.take() {
                let ghost before = item_views(self.flows@);
                self.flows.push(flow);
                assert(item_views(self.flows@) =~= before.push(flow@));
            }
        } else if is_text(tag, "aux") {
            if let Some(aux) = self.current_aux.take() {
                let ghost before = item_views(self.auxs@);
                self.auxs.push(aux);
                assert(item_views(self.auxs@) =~= before.push(aux@));
            }
        } else if is_text(tag, "variables") {
            self.in_variables = false;
        } else if is_text(tag, "model") {
            self.in_model = false;
        }
    }

    /// Takes one more event.
    pub fn feed(&mut self, event: &XmlEvent)
        ensures
            final(self)@ == stepped(old(self)@, *event),
    {
        if self.done {
            return ;
        }
        if let XmlEvent::Eof = event {
            self.done = true;
            if self.in_specs {
                self.failure = Some(XmileFault::UnexpectedEnd);
            }
            return ;
        }
        if self.awaited != Awaited::Nothing {
            match event {
                XmlEvent::Text { text, number } => self.fill(text, *number),
                _ => {
                    self.awaited = Awaited::Nothing;
                },
            }
            return ;
        }
        if self.in_specs {
            match event {
                XmlEvent::Open { tag, name } => {
                    if is_text(tag.as_str(), "start") {
                        self.awaited = Awaited::Start;
                    } else if is_text(tag.as_str(), "stop") {
                        self.awaited = Awaited::Stop;
                    } else if is_text(tag.as_str(), "dt") {
                        self.awaited = Awaited::Dt;
                    }
                },
                XmlEvent::Close { tag } => {
                    if is_text(tag.as_str(), "sim_specs") {
                        self.in_specs = false;
                        match (self.start, self.stop, self.dt) {
                            (Some(a), Some(b), Some(c)) => {
                                self.span = Some((a, b, c));
                            },
                            _ => {},
                        }
                    }
                },
                XmlEvent::Fault { located, plain } => {
                    self.done = true;
                    self.failure = Some(XmileFault::Fault(plain.clone()));
                },
                _ => {},
            }
        } else {
            match event {
                XmlEvent::Open { tag, name } => self.open(tag.as_str(), name),
                XmlEvent::Close { tag } => self.close(tag.as_str()),
                XmlEvent::Fault { located, plain } => {
                    self.done = true;
                    self.failure = Some(XmileFault::Fault(located.clone()));
                },
                _ => {},
            }
        }
    }

    /// The file model that was read.
    fn file_model(&self) -> (r: JsonModel)
        ensures
            is_file_model_read(self@, r),
    {
        let mut stocks: Vec<JsonStock> = Vec::new();
        let mut i: usize = 0;
        while i < self.stocks.len()
            invariant
                i <= self.stocks@.len(),
                stocks@.len() == i,
                forall|k: int|
                    0 <= k < i ==> {
                        &&& (#[trigger] stocks@[k]).name@ == text_or_empty(self.stocks@[k].name)
                        &&& stocks@[k].initial matches JsonInitial::Text(t) && t@
                            == text_or_empty(self.stocks@[k].eqn)
                        &&& stocks@[k].inflows@ == self.stocks@[k].inflows@
                        &&& stocks@[k].outflows@ == self.stocks@[k].outflows@
                        &&& stocks@[k].units is None
                        &&& stocks@[k].non_negative == self.stocks@[k].non_negative
                        &&& stocks@[k].max_value == self.stocks@[k].max_value
                    },
            decreases self.stocks@.len() - i,
        {
            let item = &self.stocks[i];
            stocks.push(
                JsonStock {
                    name: text_or_default(&item.name),
                    initial: JsonInitial::Text(text_or_default(&item.eqn)),
                    inflows: clone_strings(&item.inflows),
                    outflows: clone_strings(&item.outflows),
                    units: None,
                    non_negative: item.non_negative,
                    max_value: item.max_value,
                },
            );
            i += 1;
        }
        let mut flows: Vec<JsonFlow> = Vec::new();
        let mut i: usize = 0;
        while i < self.flows.len()
            invariant
                i <= self.flows@.len(),
                flows@.len() == i,
                forall|k: int|
                    0 <= k < i ==> (#[trigger] flows@[k]).name@ == text_or_empty(
                        self.flows@[k].name,
                    ) && flows@[k].equation@ == text_or_empty(self.flows@[k].eqn)
                        && flows@[k].units is None,
            decreases self.flows@.len() - i,
        {
            let item = &self.flows[i];
            flows.push(
                JsonFlow {
                    name: text_or_default(&item.name),
                    equation: text_or_default(&item.eqn),
                    units: None,
                },
            );
            i += 1;
        }
        let mut auxiliaries: Vec<JsonAuxiliary> = Vec::new();
        let mut i: usize = 0;
        while i < self.auxs.len()
            invariant
                i <= self.auxs@.len(),
                auxiliaries@.len() == i,
                forall|k: int|
                    0 <= k < i ==> (#[trigger] auxiliaries@[k]).name@ == text_or_empty(
                        self.auxs@[k].name,
                    ) && auxiliaries@[k].equation@ == text_or_empty(self.auxs@[k].eqn)
                        && auxiliaries@[k].units is None,
            decreases self.auxs@.len() - i,
        {
            let item = &self.auxs[i];
            auxiliaries.push(
                JsonAuxiliary {
                    name: text_or_default(&item.name),
                    equation: text_or_default(&item.eqn),
                    units: None,
                },
            );
            i += 1;
        }
        let time = match self.span {
            Some((a, b, c)) => TimeConfig { start: a, stop: b, dt: c, units: None },
            None => TimeConfig::default(),
        };
        let name = match &self.name {
            Some(n) => n.clone(),
            None => String::from_str("Untitled Model"),
        };
        let r = JsonModel {
            model: JsonModelContent {
                name,
                description: None,
                time,
                stocks,
                flows,
                auxiliaries,
                parameters: Vec::new(),
            },
        };
        proof {
            let s = self@;
            assert forall|k: int| 0 <= k < r.model.stocks@.len() implies {
                &&& (#[trigger] r.model.stocks@[k]).name@ == text_or_empty(s.stocks[k].name)
                &&& r.model.stocks@[k].initial matches JsonInitial::Text(t) && t@
                    == text_or_empty(s.stocks[k].eqn)
                &&& r.model.stocks@[k].inflows@ == s.stocks[k].inflows
                &&& r.model.stocks@[k].outflows@ == s.stocks[k].outflows
                &&& r.model.stocks@[k].units is None
                &&& r.model.stocks@[k].non_negative == s.stocks[k].non_negative
                &&& r.model.stocks@[k].max_value == s.stocks[k].max_value
            } by {
                assert(s.stocks[k] == self.stocks@[k]@);
            }
            assert forall|k: int| 0 <= k < r.model.flows@.len() implies (
            #[trigger] r.model.flows@[k]).name@ == text_or_empty(s.flows[k].name)
                && r.model.flows@[k].equation@ == text_or_empty(s.flows[k].eqn)
                && r.model.flows@[k].units is None by {
                assert(s.flows[k] == self.flows@[k]@);
            }
            assert forall|k: int| 0 <= k < r.model.auxiliaries@.len() implies (
            #[trigger] r.model.auxiliaries@[k]).name@ == text_or_empty(s.auxs[k].name)
                && r.model.auxiliaries@[k].equation@ == text_or_empty(s.auxs[k].eqn)
                && r.model.auxiliaries@[k].units is None by {
                assert(s.auxs[k] == self.auxs@[k]@);
            }
        }
        r
    }

    /// The model that was read. Fails where the reading failed, and where the
    /// file model that was read cannot become a model.
    pub fn finish(&self) -> (r: Result<Model, String>)
        ensures
            match self@.failure {
                Some(XmileFault::UnexpectedEnd) => r matches Err(msg) && msg@
                    == "Unexpected EOF in sim_specs"@,
                Some(XmileFault::Fault(said)) => r matches Err(msg) && msg@ == said@,
                None => exists|file: JsonModel|
                    is_file_model_read(self@, file) && (r is Ok <==> converts(file)) && (
                    r matches Ok(model) ==> stands_for(file, model) && model.names_are_distinct()),
            },
    {
        match &self.failure {
            Some(XmileFault::UnexpectedEnd) => Err(String::from_str("Unexpected EOF in sim_specs")),
            Some(XmileFault::Fault(said)) => Err(said.clone()),
            None => {
                let file = self.file_model();
                let ghost seen = file;
                let r = JsonModel::to_model(file);
                assert(is_file_model_read(self@, seen) && (r is Ok <==> converts(seen)));
                r
            },
        }
    }
}

/// The model that the events of an XMILE text stand for.
pub fn parse_xmile_events(events: &Vec<XmlEvent>) -> (r: Result<Model, String>)
    ensures
        match read(events@, events@.len() as int).failure {
            Some(XmileFault::UnexpectedEnd) => r matches Err(msg) && msg@
                == "Unexpected EOF in sim_specs"@,
            Some(XmileFault::Fault(said)) => r matches Err(msg) && msg@ == said@,
            None => exists|file: JsonModel|
                is_file_model_read(read(events@, events@.len() as int), file) && (r is Ok
                    <==> converts(file)) && (r matches Ok(model) ==> stands_for(file, model)
                    && model.names_are_distinct()),
        },
{
    let mut reader = XmileReader::new();
    let mut i: usize = 0;
    while i < events.len()
        invariant
            i <= events@.len(),
            reader@ == read(events@, i as int),
        decreases events@.len() - i,
    {
        reader.feed(&events[i]);
        i += 1;
    }
    reader.finish()
}

} // verus!
