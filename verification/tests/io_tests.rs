use rsedsim::io::format::{format_of, format_of_extension, FileFormat};
use rsedsim::io::insightmaker::{
    convert_insightmaker, to_file_model, InsightMakerModel, InsightMakerPrimitive, InsightMakerSettings,
};
use rsedsim::io::xmile::{parse_xmile_events, XmileReader, XmlEvent};
use rsedsim::io::parser::{
    JsonAuxiliary, JsonFlow, JsonInitial, JsonModel, JsonModelContent, JsonParameter, JsonStock,
};
use rsedsim::model::expression::Expression;
use rsedsim::model::TimeConfig;
use rsedsim::number::Number;
use rsedsim::simulation::arrayvalue::{ArraySimulationState, ArrayValue};
use rsedsim::model::{Dimension, Model, Stock};

fn num(x: f64) -> Number {
    Number::from_bits(x.to_bits())
}

fn val(n: Number) -> f64 {
    f64::from_bits(n.to_bits())
}

fn nums(xs: &[f64]) -> Vec<Number> {
    xs.iter().map(|&x| num(x)).collect()
}

/// The model that the JSON text stands for, read with `serde_json` field by field.
fn from_json(text: &str) -> JsonModel {
    let value: serde_json::Value = serde_json::from_str(text).unwrap();
    let m = &value["model"];
    let text_of = |v: &serde_json::Value| v.as_str().map(|s| s.to_string());
    let names = |v: &serde_json::Value| -> Vec<String> {
        v.as_array().map(|a| a.iter().filter_map(text_of).collect()).unwrap_or_default()
    };
    let list = |v: &serde_json::Value| v.as_array().cloned().unwrap_or_default();
    JsonModel {
        model: JsonModelContent {
            name: text_of(&m["name"]).unwrap(),
            description: text_of(&m["description"]),
            time: TimeConfig {
                start: num(m["time"]["start"].as_f64().unwrap()),
                stop: num(m["time"]["stop"].as_f64().unwrap()),
                dt: num(m["time"]["dt"].as_f64().unwrap()),
                units: text_of(&m["time"]["units"]),
            },
            stocks: list(&m["stocks"])
                .iter()
                .map(|s| JsonStock {
                    name: text_of(&s["name"]).unwrap(),
                    initial: match &s["initial"] {
                        serde_json::Value::Number(n) => JsonInitial::Number(n.to_string()),
                        serde_json::Value::String(t) => JsonInitial::Text(t.clone()),
                        _ => JsonInitial::Other,
                    },
                    inflows: names(&s["inflows"]),
                    outflows: names(&s["outflows"]),
                    units: text_of(&s["units"]),
                    non_negative: false,
                    max_value: None,
                })
                .collect(),
            flows: list(&m["flows"])
                .iter()
                .map(|f| JsonFlow {
                    name: text_of(&f["name"]).unwrap(),
                    equation: text_of(&f["equation"]).unwrap(),
                    units: text_of(&f["units"]),
                })
                .collect(),
            auxiliaries: list(&m["auxiliaries"])
                .iter()
                .map(|a| JsonAuxiliary {
                    name: text_of(&a["name"]).unwrap(),
                    equation: text_of(&a["equation"]).unwrap(),
                    units: text_of(&a["units"]),
                })
                .collect(),
            parameters: list(&m["parameters"])
                .iter()
                .map(|p| JsonParameter {
                    name: text_of(&p["name"]).unwrap(),
                    value: num(p["value"].as_f64().unwrap()),
                    units: text_of(&p["units"]),
                    description: text_of(&p["description"]),
                })
                .collect(),
        },
    }
}

#[test]
fn test_parse_json_simple() {
    let json = r#"
    {
        "model": {
            "name": "Test",
            "time": {
                "start": 0,
                "stop": 10,
                "dt": 0.1
            },
            "stocks": [
                {
                    "name": "Stock1",
                    "initial": 100
                }
            ],
            "parameters": [
                {
                    "name": "param1",
                    "value": 0.5
                }
            ]
        }
    }
    "#;

    let model = JsonModel::to_model(from_json(json)).unwrap();
    assert_eq!(model.metadata().name, "Test");
    assert_eq!(model.stocks().len(), 1);
    assert_eq!(model.parameters().len(), 1);
    assert!(matches!(model.stocks()[0].initial, Expression::Constant(ref t) if t == "100"));
    assert_eq!(val(model.time().dt), 0.1);
    assert_eq!(val(model.parameters()[0].value), 0.5);
}

#[test]
fn file_models_are_checked() {
    let good = r#"{"model": {"name": "M", "description": "d", "time": {"start": 0, "stop": 1, "dt": 1},
        "stocks": [{"name": "S", "initial": "a * 2", "inflows": ["f"], "units": "kg"}],
        "flows": [{"name": "f", "equation": "S / 10"}],
        "auxiliaries": [{"name": "a", "equation": "3"}]}}"#;
    let model = JsonModel::to_model(from_json(good)).unwrap();
    assert_eq!(model.metadata().description.as_deref(), Some("d"));
    assert_eq!(model.stocks()[0].inflows, vec!["f"]);
    assert_eq!(model.stocks()[0].units.as_deref(), Some("kg"));
    assert_eq!(model.flows()[0].equation.to_string(), "(S / 10)");
    assert_eq!(model.auxiliaries().len(), 1);

    let twice = r#"{"model": {"name": "M", "time": {"start": 0, "stop": 1, "dt": 1},
        "flows": [{"name": "f", "equation": "1"}, {"name": "f", "equation": "2"}]}}"#;
    assert_eq!(JsonModel::to_model(from_json(twice)).unwrap_err(), "Flow 'f' already exists");
    let broken = r#"{"model": {"name": "M", "time": {"start": 0, "stop": 1, "dt": 1},
        "auxiliaries": [{"name": "a", "equation": "(1 + "}]}}"#;
    assert_eq!(JsonModel::to_model(from_json(broken)).unwrap_err(), "unmatched parenthesis in '(1 +'");
    let odd = r#"{"model": {"name": "M", "time": {"start": 0, "stop": 1, "dt": 1},
        "stocks": [{"name": "S", "initial": [1, 2]}]}}"#;
    assert_eq!(JsonModel::to_model(from_json(odd)).unwrap_err(), "Initial value must be number or string");
}

#[test]
fn test_scalar_value() {
    let val = ArrayValue::scalar(num(42.0));
    assert!(val.is_scalar());
    assert_eq!(val.as_scalar().unwrap(), num(42.0));
    assert_eq!(val.get(&[]).unwrap(), num(42.0));
}

#[test]
fn test_1d_array() {
    let mut val = ArrayValue::from_vec(vec![3], nums(&[1.0, 2.0, 3.0])).unwrap();
    assert!(val.is_array());
    assert_eq!(val.shape(), vec![3]);
    assert_eq!(val.get(&[0]).unwrap(), num(1.0));
    assert_eq!(val.get(&[2]).unwrap(), num(3.0));

    val.set(&[1], num(5.0)).unwrap();
    assert_eq!(val.get(&[1]).unwrap(), num(5.0));
}

#[test]
fn test_2d_array() {
    // 2x3 matrix: [[1,2,3], [4,5,6]]
    let val = ArrayValue::from_vec(vec![2, 3], nums(&[1.0, 2.0, 3.0, 4.0, 5.0, 6.0])).unwrap();
    assert_eq!(val.shape(), vec![2, 3]);
    assert_eq!(val.get(&[0, 0]).unwrap(), num(1.0));
    assert_eq!(val.get(&[0, 2]).unwrap(), num(3.0));
    assert_eq!(val.get(&[1, 0]).unwrap(), num(4.0));
    assert_eq!(val.get(&[1, 2]).unwrap(), num(6.0));
}

#[test]
fn arrays_refuse_what_is_not_there() {
    let mut val = ArrayValue::from_vec(vec![2, 3], nums(&[1.0, 2.0, 3.0, 4.0, 5.0, 6.0])).unwrap();
    assert_eq!(val.get(&[1]).unwrap_err(), "Expected 2 indices, got 1");
    assert_eq!(val.get(&[1, 3]).unwrap_err(), "Index 3 out of bounds for dimension 1 (size 3)");
    assert_eq!(val.set(&[2, 0], num(0.0)).unwrap_err(), "Index 2 out of bounds for dimension 0 (size 2)");
    assert_eq!(val.as_scalar().unwrap_err(), "Cannot convert array to scalar");
    assert_eq!(
        ArrayValue::from_vec(vec![2, 3], nums(&[1.0])).unwrap_err(),
        "Data size 1 does not match shape [2, 3] (expected 6)"
    );
    let mut one = ArrayValue::scalar(num(1.0));
    assert_eq!(one.get(&[0]).unwrap_err(), "Cannot index scalar value");
    assert_eq!(one.set(&[0], num(2.0)).unwrap_err(), "Cannot index scalar value");
    one.set(&[], num(2.0)).unwrap();
    assert_eq!(one.as_scalar().unwrap(), num(2.0));
    assert!(one.shape().is_empty());
    let zeros = ArrayValue::zeros(vec![2, 0, 4]);
    assert_eq!(zeros.get(&[0, 0, 0]).unwrap_err(), "Index 0 out of bounds for dimension 1 (size 0)");
    let grid = ArrayValue::zeros(vec![2, 2]);
    assert_eq!(grid.get(&[1, 1]).unwrap(), num(0.0));
}

#[test]
fn array_states_start_from_the_model() {
    let mut model = Model::new("arrays");
    model.add_dimension(Dimension::new("Region", vec!["N".to_string(), "S".to_string()])).unwrap();
    model.add_dimension(Dimension::new("Age", vec!["a".to_string(), "b".to_string(), "c".to_string()])).unwrap();
    model
        .add_stock(Stock::new("People", "1").with_dimensions(vec!["Region".to_string(), "Age".to_string()]))
        .unwrap();
    model.add_stock(Stock::new("Lost", "1").with_dimensions(vec!["Nowhere".to_string()])).unwrap();
    model.add_stock(Stock::new("Plain", "1")).unwrap();
    model.add_flow(rsedsim::model::Flow::new("f", "1")).unwrap();
    let state = ArraySimulationState::initialize_from_model(&model, &nums(&[7.0, 8.0, 9.0])).unwrap();
    assert_eq!(state.get_value("People").unwrap().shape(), vec![2, 3]);
    assert_eq!(state.get_element("People", &[1, 2]).unwrap(), num(7.0));
    assert_eq!(state.get_element("Lost", &[]).unwrap(), num(8.0));
    assert_eq!(state.get_element("Plain", &[]).unwrap(), num(9.0));
    assert_eq!(state.get_element("f", &[]).unwrap(), num(0.0));
    assert_eq!(state.get_element("g", &[]).unwrap_err(), "Variable 'g' not found");
    assert!(state.get_value("g").is_none());
    assert_eq!(
        ArraySimulationState::initialize_from_model(&model, &nums(&[7.0])).unwrap_err(),
        "One initial value is needed for each stock"
    );
}


/// The events of an XML text, read with `quick_xml`.
fn events_of(xml: &str) -> Vec<XmlEvent> {
    let mut reader = quick_xml::Reader::from_str(xml);
    reader.trim_text(true);
    let mut buf = Vec::new();
    let mut events = Vec::new();
    let name_of = |e: &quick_xml::events::BytesStart| {
        e.attributes()
            .filter_map(|a| a.ok())
            .find(|a| a.key.as_ref() == b"name")
            .map(|a| String::from_utf8_lossy(&a.value).to_string())
    };
    loop {
        let event = match reader.read_event_into(&mut buf) {
            Ok(quick_xml::events::Event::Start(e)) | Ok(quick_xml::events::Event::Empty(e)) => XmlEvent::Open {
                tag: String::from_utf8_lossy(e.name().as_ref()).to_string(),
                name: name_of(&e),
            },
            Ok(quick_xml::events::Event::End(e)) => {
                XmlEvent::Close { tag: String::from_utf8_lossy(e.name().as_ref()).to_string() }
            }
            Ok(quick_xml::events::Event::Text(e)) => {
                let text = e.unescape().unwrap_or_default().to_string();
                let number = text.parse::<f64>().ok().map(num);
                XmlEvent::Text { text, number }
            }
            Ok(quick_xml::events::Event::Eof) => XmlEvent::Eof,
            Err(e) => XmlEvent::Fault {
                located: format!("XML parse error at position {}: {}", reader.buffer_position(), e),
                plain: format!("XML parse error: {}", e),
            },
            _ => XmlEvent::Other,
        };
        let last = matches!(event, XmlEvent::Eof | XmlEvent::Fault { .. });
        events.push(event);
        buf.clear();
        if last {
            return events;
        }
    }
}

#[test]
fn test_parse_simple_xmile() {
    let xml = r#"
    <?xml version="1.0" encoding="UTF-8"?>
    <xmile version="1.0">
        <header>
            <name>Simple Model</name>
        </header>
        <sim_specs>
            <start>0</start>
            <stop>10</stop>
            <dt>1</dt>
        </sim_specs>
        <model>
            <variables>
                <stock name="Population">
                    <eqn>100</eqn>
                    <inflow>births</inflow>
                </stock>
                <flow name="births">
                    <eqn>Population * 0.1</eqn>
                </flow>
            </variables>
        </model>
    </xmile>
    "#;

    let model = parse_xmile_events(&events_of(xml)).unwrap();
    assert_eq!(model.metadata().name, "Simple Model");
    assert_eq!(val(model.time().start), 0.0);
    assert_eq!(val(model.time().stop), 10.0);
    assert_eq!(val(model.time().dt), 1.0);
    assert_eq!(model.stocks().len(), 1);
    assert_eq!(model.flows().len(), 1);
    assert_eq!(model.stocks()[0].inflows, vec!["births"]);
    assert_eq!(model.flows()[0].equation.to_string(), "(Population * 0.1)");
}

fn open(tag: &str, name: Option<&str>) -> XmlEvent {
    XmlEvent::Open { tag: tag.to_string(), name: name.map(|n| n.to_string()) }
}

fn close(tag: &str) -> XmlEvent {
    XmlEvent::Close { tag: tag.to_string() }
}

fn text(t: &str) -> XmlEvent {
    XmlEvent::Text { text: t.to_string(), number: t.parse::<f64>().ok().map(num) }
}

#[test]
fn xmile_reader_follows_its_events() {
    let events = vec![
        open("xmile", None),
        open("model", None),
        open("name", None),
        text("ignored inside a model"),
        open("stock", Some("Early")),
        close("stock"),
        open("variables", None),
        open("stock", Some("Tank")),
        open("eqn", None),
        text("5"),
        close("eqn"),
        open("non_negative", None),
        open("max", None),
        text("7.5"),
        close("max"),
        open("outflow", None),
        text("drain"),
        close("outflow"),
        close("stock"),
        open("flow", Some("drain")),
        open("eqn", None),
        close("eqn"),
        close("flow"),
        open("aux", Some("level")),
        open("eqn", None),
        text("Tank / 2"),
        close("aux"),
        close("variables"),
        close("model"),
        XmlEvent::Eof,
        open("stock", Some("Late")),
    ];
    let model = parse_xmile_events(&events);
    // the flow has no equation, and an empty text is no expression
    assert_eq!(model.unwrap_err(), "empty operand in ''");

    let mut fixed = events.clone();
    fixed[20] = open("eqn", None);
    fixed.insert(21, text("10"));
    let model = parse_xmile_events(&fixed).unwrap();
    assert_eq!(model.metadata().name, "Untitled Model");
    assert_eq!(val(model.time().stop), 100.0);
    assert_eq!(model.stocks().len(), 1);
    let tank = &model.stocks()[0];
    assert_eq!(tank.name, "Tank");
    assert!(tank.non_negative);
    assert_eq!(tank.max_value.map(val), Some(7.5));
    assert_eq!(tank.outflows, vec!["drain"]);
    assert_eq!(model.flows()[0].equation.to_string(), "10");
    assert_eq!(model.auxiliaries()[0].equation.to_string(), "(Tank / 2)");

    let cut = vec![open("sim_specs", None), open("start", None), text("1"), XmlEvent::Eof];
    assert_eq!(parse_xmile_events(&cut).unwrap_err(), "Unexpected EOF in sim_specs");
    let half = vec![open("sim_specs", None), open("start", None), text("1"), close("sim_specs"), XmlEvent::Eof];
    assert_eq!(val(parse_xmile_events(&half).unwrap().time().start), 0.0);
    let fault = |inside: bool| {
        let mut events = Vec::new();
        if inside {
            events.push(open("sim_specs", None));
        }
        events.push(XmlEvent::Fault { located: "here".to_string(), plain: "there".to_string() });
        parse_xmile_events(&events).unwrap_err()
    };
    assert_eq!(fault(false), "here");
    assert_eq!(fault(true), "there");
    let mut reader = XmileReader::new();
    assert!(!reader.is_done());
    reader.feed(&XmlEvent::Eof);
    assert!(reader.is_done());
    assert_eq!(reader.finish().unwrap().stocks().len(), 0);
    let broken = events_of("<xmile><model></xmile>");
    assert!(parse_xmile_events(&broken).unwrap_err().starts_with("XML parse error at position"));
}

fn insight(json: &str) -> InsightMakerModel {
    let value: serde_json::Value = serde_json::from_str(json).unwrap();
    let text_of = |v: &serde_json::Value| v.as_str().map(|s| s.to_string());
    let names = |v: &serde_json::Value| -> Vec<String> {
        v.as_array().map(|a| a.iter().filter_map(text_of).collect()).unwrap_or_default()
    };
    InsightMakerModel {
        name: text_of(&value["name"]).unwrap_or_default(),
        settings: InsightMakerSettings {
            start: num(value["settings"]["start"].as_f64().unwrap_or(0.0)),
            stop: num(value["settings"]["stop"].as_f64().unwrap_or(100.0)),
            dt: num(value["settings"]["dt"].as_f64().unwrap_or(1.0)),
            time_units: text_of(&value["settings"]["time_units"]),
        },
        primitives: value["primitives"]
            .as_array()
            .cloned()
            .unwrap_or_default()
            .iter()
            .map(|p| InsightMakerPrimitive {
                id: text_of(&p["id"]).unwrap(),
                primitive_type: text_of(&p["type"]).unwrap(),
                name: text_of(&p["name"]).unwrap(),
                value: text_of(&p["value"]),
                number: text_of(&p["value"]).and_then(|v| v.parse::<f64>().ok()).map(num),
                equation: text_of(&p["equation"]),
                units: text_of(&p["units"]),
                inflows: names(&p["inflows"]),
                outflows: names(&p["outflows"]),
            })
            .collect(),
    }
}

#[test]
fn test_parse_insightmaker_simple() {
    let json = r#"
    {
        "name": "Test Model",
        "settings": {
            "start": 0,
            "stop": 100,
            "dt": 0.25
        },
        "primitives": [
            {
                "id": "1",
                "type": "Stock",
                "name": "Population",
                "value": "100",
                "inflows": ["2"]
            },
            {
                "id": "2",
                "type": "Flow",
                "name": "growth",
                "equation": "Population * 0.1"
            },
            {
                "id": "3",
                "type": "Parameter",
                "name": "growth_rate",
                "value": "0.1"
            }
        ]
    }
    "#;

    let model = convert_insightmaker(&insight(json)).unwrap();
    assert_eq!(model.metadata().name, "Test Model");
    assert_eq!(model.stocks().len(), 1);
    assert_eq!(model.flows().len(), 1);
    assert_eq!(model.parameters().len(), 1);
    assert_eq!(model.stocks()[0].inflows, vec!["growth"]);
    assert_eq!(val(model.time().dt), 0.25);
}

#[test]
fn insightmaker_primitives_by_kind() {
    let json = r#"{"name": "K", "primitives": [
        {"id": "a", "type": "Variable", "name": "rate", "value": "0.5", "equation": "1 + 1"},
        {"id": "b", "type": "Variable", "name": "double", "value": "x", "equation": "rate * 2"},
        {"id": "c", "type": "Converter", "name": "idle"},
        {"id": "d", "type": "Stock", "name": "S", "inflows": ["z", "e"], "outflows": ["e"]},
        {"id": "e", "type": "Flow", "name": "old"},
        {"id": "e", "type": "Flow", "name": "new", "value": "3"},
        {"id": "f", "type": "Constant", "name": "c", "value": "x1"}
    ]}"#;
    let file = to_file_model(&insight(json));
    let names = |v: Vec<&String>| v.into_iter().cloned().collect::<Vec<_>>();
    assert_eq!(names(file.model.parameters.iter().map(|p| &p.name).collect()), vec!["rate"]);
    assert_eq!(names(file.model.auxiliaries.iter().map(|p| &p.name).collect()), vec!["double"]);
    assert_eq!(names(file.model.flows.iter().map(|p| &p.name).collect()), vec!["old", "new"]);
    assert_eq!(file.model.flows[0].equation, "0");
    assert_eq!(file.model.flows[1].equation, "3");
    assert_eq!(file.model.stocks[0].inflows, vec!["new"]);
    assert_eq!(file.model.stocks[0].outflows, vec!["new"]);
    let model = convert_insightmaker(&insight(json)).unwrap();
    assert_eq!(model.auxiliaries()[0].equation.to_string(), "(rate * 2)");
    assert_eq!(val(model.time().stop), 100.0);
}

#[test]
fn file_names_tell_their_format() {
    assert_eq!(format_of("model.xmile"), Some(FileFormat::Xmile));
    assert_eq!(format_of("a.b.stmx"), Some(FileFormat::Xmile));
    assert_eq!(format_of("x.itmx"), Some(FileFormat::Xmile));
    assert_eq!(format_of("x.json"), Some(FileFormat::Json));
    assert_eq!(format_of("x.yaml"), Some(FileFormat::Yaml));
    assert_eq!(format_of("x.yml"), Some(FileFormat::Yaml));
    assert_eq!(format_of(".yml"), Some(FileFormat::Yaml));
    assert_eq!(format_of("x.xml"), None);
    assert_eq!(format_of("json"), None);
    assert_eq!(format_of(""), None);
    assert_eq!(format_of("x.JSON"), None);
    assert_eq!(format_of_extension("json"), Some(FileFormat::Json));
    assert_eq!(format_of_extension("yml"), Some(FileFormat::Yaml));
    assert_eq!(format_of_extension("yaml"), Some(FileFormat::Yaml));
    assert_eq!(format_of_extension("xml"), Some(FileFormat::Xmile));
    assert_eq!(format_of_extension("stmx"), Some(FileFormat::Xmile));
    assert_eq!(format_of_extension("xjson"), None);
    assert_eq!(format_of_extension(".json"), None);
    assert_eq!(format_of_extension(""), None);
}
