use rsedsim::model::expression::{Expression, Operator};
use rsedsim::model::functions::{
    compare_values, is_truthy, is_zero_divisor, pulse_value, ramp_phase, repeating_pulse_value,
    resolve_call, step_value, Builtin, RampPhase,
};
use rsedsim::model::{Flow, Model, Parameter, Stock, TimeConfig, ValidationErrorKind};
use rsedsim::model::auxiliary::Auxiliary;
use rsedsim::number::Number;
use rsedsim::simulation::context::EvaluationContext;
use rsedsim::simulation::engine::{IntegrationMethod, Integrator, SimulationConfig, SimulationEngine};
use rsedsim::simulation::error::{SimulationError, SimulationErrorKind};
use rsedsim::simulation::integrator::{
    after_pass, is_fatal_in, AttemptVerdict, BackwardEulerIntegrator, PassVerdict, RK45Integrator,
    SolveVerdict,
};
use rsedsim::simulation::delay::{Delayed, DelayManager, ExponentialDelay, PipelineDelay};
use rsedsim::simulation::noise::renews_octave;
use rsedsim::simulation::results::SimulationResults;
use rsedsim::simulation::state::{Proposal, SimulationState};

fn num(x: f64) -> Number {
    Number::from_bits(x.to_bits())
}

fn val(n: Number) -> f64 {
    f64::from_bits(n.to_bits())
}

fn eval(e: &Expression, model: &Model, state: &SimulationState, time: f64) -> Result<f64, String> {
    match e {
        Expression::Constant(text) => text.parse::<f64>().map_err(|e| e.to_string()),
        Expression::Variable(name) => EvaluationContext::new(model, state, num(time))
            .get_variable(name)
            .map(val)
            .map_err(|e| format!("{:?} {}", e.kind, e.name)),
        Expression::SubscriptedVariable { name, subscripts } => {
            EvaluationContext::new(model, state, num(time))
                .get_subscripted_variable(name, subscripts)
                .map(val)
                .map_err(|e| format!("{:?} {}", e.kind, e.name))
        }
        Expression::BinaryOp { op, left, right } => {
            let l = eval(left, model, state, time)?;
            let r = eval(right, model, state, time)?;
            Ok(match op {
                Operator::Add => l + r,
                Operator::Subtract => l - r,
                Operator::Multiply => l * r,
                Operator::Divide => {
                    if is_zero_divisor(num(r)) {
                        return Err("Division by zero".to_string());
                    }
                    l / r
                }
                Operator::Power => l.powf(r),
                Operator::Equal => if (l - r).abs() < 1e-10 { 1.0 } else { 0.0 },
                Operator::NotEqual => if (l - r).abs() >= 1e-10 { 1.0 } else { 0.0 },
                _ => val(compare_values(*op, num(l), num(r))),
            })
        }
        Expression::UnaryOp { expr, .. } => Ok(-eval(expr, model, state, time)?),
        Expression::FunctionCall { name, args } => {
            let mut values = Vec::new();
            for a in args {
                values.push(eval(a, model, state, time)?);
            }
            let builtin = resolve_call(name, values.len()).map_err(|e| format!("{:?}", e.kind))?;
            let numbers: Vec<Number> = values.iter().map(|&v| num(v)).collect();
            if !builtin.is_defined_on(&numbers) {
                return Err(format!("{} outside its domain", name));
            }
            Ok(match builtin {
                Builtin::Min => values.iter().copied().fold(f64::INFINITY, f64::min),
                Builtin::Max => values.iter().copied().fold(f64::NEG_INFINITY, f64::max),
                Builtin::Abs => values[0].abs(),
                Builtin::Sqrt => values[0].sqrt(),
                Builtin::Exp => values[0].exp(),
                Builtin::Ln | Builtin::Log => values[0].ln(),
                Builtin::Time => time,
                Builtin::Step => val(step_value(numbers[0], numbers[1], num(time))),
                Builtin::Pulse => {
                    if values.len() == 3 {
                        let phase = (time - values[0]) % values[2];
                        val(repeating_pulse_value(numbers[0], numbers[1], num(time), num(phase)))
                    } else {
                        val(pulse_value(numbers[0], num(values[0] + values[1]), num(time)))
                    }
                }
                Builtin::Ramp => {
                    let end = if values.len() == 3 { Some(numbers[2]) } else { None };
                    match ramp_phase(numbers[1], end, num(time)) {
                        RampPhase::Before => 0.0,
                        RampPhase::Rising => values[0] * (time - values[1]),
                        RampPhase::Clamped => values[0] * (values[2] - values[1]),
                    }
                }
                other => return Err(format!("{:?} is not needed here", other)),
            })
        }
        Expression::Conditional { condition, true_expr, false_expr } => {
            if is_truthy(num(eval(condition, model, state, time)?)) {
                eval(true_expr, model, state, time)
            } else {
                eval(false_expr, model, state, time)
            }
        }
    }
}

fn engine_for(model: Model, config: SimulationConfig) -> SimulationEngine {
    let blank = SimulationState::new();
    let start = val(model.time().start);
    let initial: Vec<Number> = model
        .stocks()
        .iter()
        .map(|s| num(eval(&s.initial, &model, &blank, start).unwrap()))
        .collect();
    SimulationEngine::new(model, config, &initial).unwrap()
}

fn with_values(state: &SimulationState, which: u8, values: &[f64]) -> SimulationState {
    let mut trial = state.clone();
    let entries = match which {
        0 => &mut trial.stocks,
        1 => &mut trial.flows,
        _ => &mut trial.auxiliaries,
    };
    for (entry, &v) in entries.iter_mut().zip(values) {
        entry.value = num(v);
    }
    trial
}

#[derive(Clone, Copy)]
enum Method {
    Euler,
    Heun,
    Rk4,
    BackwardEuler,
    Rk45,
}

struct Stepper(Method);

fn fail(message: String) -> SimulationError {
    SimulationError::new(SimulationErrorKind::IntegratorFailure, "step", &message)
}

/// The derivatives of the stocks at the given stock values, with the flows and auxiliaries.
fn slope(model: &Model, state: &SimulationState, stocks: &[f64], t: f64) -> Result<(Vec<f64>, Vec<f64>, Vec<f64>), SimulationError> {
    let base = with_values(state, 0, stocks);
    let mut aux: Vec<f64> = state.auxiliaries.iter().map(|e| val(e.value)).collect();
    for pass in 0..20 {
        let trial = with_values(&base, 2, &aux);
        let mut changed = false;
        let mut failed = false;
        for (i, a) in model.auxiliaries().iter().enumerate() {
            match eval(&a.equation, model, &trial, t) {
                Ok(v) => {
                    if (v - aux[i]).abs() > 1e-10 {
                        changed = true;
                    }
                    aux[i] = v;
                }
                Err(e) => {
                    if is_fatal_in(pass) {
                        return Err(fail(e));
                    }
                    failed = true;
                }
            }
        }
        match after_pass(pass, changed, failed) {
            PassVerdict::Again => {}
            PassVerdict::Failed => return Err(fail("auxiliaries failed".to_string())),
            _ => break,
        }
    }
    let trial = with_values(&base, 2, &aux);
    let mut flows = Vec::new();
    for f in model.flows() {
        flows.push(eval(&f.equation, model, &trial, t).map_err(fail)?);
    }
    let mut derivatives = Vec::new();
    for s in model.stocks() {
        let inflows = model.flow_positions(&s.inflows).map_err(|k| fail(s.inflows[k].clone()))?;
        let outflows = model.flow_positions(&s.outflows).map_err(|k| fail(s.outflows[k].clone()))?;
        let mut derivative = 0.0;
        for p in inflows {
            derivative += flows[p];
        }
        for p in outflows {
            derivative -= flows[p];
        }
        derivatives.push(derivative);
    }
    Ok((derivatives, flows, aux))
}

fn combine(y: &[f64], parts: &[(f64, &Vec<f64>)], h: f64) -> Vec<f64> {
    y.iter().enumerate().map(|(i, &v)| v + h * parts.iter().map(|(w, k)| w * k[i]).sum::<f64>()).collect()
}

fn proposal(time: f64, stocks: &[f64], flows: &[f64], aux: &[f64]) -> Proposal {
    Proposal {
        time: num(time),
        stocks: stocks.iter().map(|&v| num(v)).collect(),
        flows: flows.iter().map(|&v| num(v)).collect(),
        auxiliaries: aux.iter().map(|&v| num(v)).collect(),
    }
}

impl Integrator for Stepper {
    fn step(&mut self, model: &Model, state: &SimulationState, dt: Number) -> Result<Proposal, SimulationError> {
        let t = val(state.time);
        let dt = val(dt).min(val(model.time().stop) - t);
        let y: Vec<f64> = state.stocks.iter().map(|e| val(e.value)).collect();
        match self.0 {
            Method::Euler => {
                let (k1, flows, aux) = slope(model, state, &y, t)?;
                Ok(proposal(t + dt, &combine(&y, &[(1.0, &k1)], dt), &flows, &aux))
            }
            Method::Heun => {
                let (k1, _, _) = slope(model, state, &y, t)?;
                let (k2, flows, aux) = slope(model, state, &combine(&y, &[(1.0, &k1)], dt), t + dt)?;
                Ok(proposal(t + dt, &combine(&y, &[(0.5, &k1), (0.5, &k2)], dt), &flows, &aux))
            }
            Method::Rk4 => {
                let (k1, _, _) = slope(model, state, &y, t)?;
                let (k2, _, _) = slope(model, state, &combine(&y, &[(0.5, &k1)], dt), t + dt / 2.0)?;
                let (k3, _, _) = slope(model, state, &combine(&y, &[(0.5, &k2)], dt), t + dt / 2.0)?;
                let (k4, flows, aux) = slope(model, state, &combine(&y, &[(1.0, &k3)], dt), t + dt)?;
                let weights = [(1.0 / 6.0, &k1), (2.0 / 6.0, &k2), (2.0 / 6.0, &k3), (1.0 / 6.0, &k4)];
                Ok(proposal(t + dt, &combine(&y, &weights, dt), &flows, &aux))
            }
            Method::BackwardEuler => {
                let solver = BackwardEulerIntegrator::default();
                let (k0, mut flows, mut aux) = slope(model, state, &y, t)?;
                let mut guess = combine(&y, &[(1.0, &k0)], dt);
                let mut iteration = 0;
                while iteration < solver.max_iterations {
                    let (k, f, a) = slope(model, state, &guess, t + dt)?;
                    let next: Vec<f64> = combine(&y, &[(1.0, &k)], dt)
                        .iter()
                        .zip(model.stocks())
                        .map(|(&v, stock)| val(stock.constrain(num(v))))
                        .collect();
                    let change = next.iter().zip(&guess).map(|(a, b)| (a - b).abs()).fold(0.0, f64::max);
                    guess = next;
                    flows = f;
                    aux = a;
                    match solver.after_iteration(iteration, num(change)) {
                        SolveVerdict::Again => iteration += 1,
                        _ => break,
                    }
                }
                Ok(proposal(t + dt, &guess, &flows, &aux))
            }
            Method::Rk45 => {
                let solver = RK45Integrator::default();
                let mut h = val(solver.first_step(num(dt)));
                let mut attempt = 0;
                loop {
                    let (k1, _, _) = slope(model, state, &y, t)?;
                    let (k2, _, _) = slope(model, state, &combine(&y, &[(1.0 / 5.0, &k1)], h), t + h / 5.0)?;
                    let y3 = combine(&y, &[(3.0 / 40.0, &k1), (9.0 / 40.0, &k2)], h);
                    let (k3, _, _) = slope(model, state, &y3, t + 3.0 * h / 10.0)?;
                    let y4 = combine(&y, &[(44.0 / 45.0, &k1), (-56.0 / 15.0, &k2), (32.0 / 9.0, &k3)], h);
                    let (k4, _, _) = slope(model, state, &y4, t + 4.0 * h / 5.0)?;
                    let y5 = combine(
                        &y,
                        &[(19372.0 / 6561.0, &k1), (-25360.0 / 2187.0, &k2), (64448.0 / 6561.0, &k3), (-212.0 / 729.0, &k4)],
                        h,
                    );
                    let (k5, _, _) = slope(model, state, &y5, t + 8.0 * h / 9.0)?;
                    let y6 = combine(
                        &y,
                        &[
                            (9017.0 / 3168.0, &k1),
                            (-355.0 / 33.0, &k2),
                            (46732.0 / 5247.0, &k3),
                            (49.0 / 176.0, &k4),
                            (-5103.0 / 18656.0, &k5),
                        ],
                        h,
                    );
                    let (k6, _, _) = slope(model, state, &y6, t + h)?;
                    let fifth = combine(
                        &y,
                        &[(35.0 / 384.0, &k1), (500.0 / 1113.0, &k3), (125.0 / 192.0, &k4), (-2187.0 / 6784.0, &k5), (11.0 / 84.0, &k6)],
                        h,
                    );
                    let (k7, flows, aux) = slope(model, state, &fifth, t + h)?;
                    let fourth = combine(
                        &y,
                        &[
                            (5179.0 / 57600.0, &k1),
                            (7571.0 / 16695.0, &k3),
                            (393.0 / 640.0, &k4),
                            (-92097.0 / 339200.0, &k5),
                            (187.0 / 2100.0, &k6),
                            (1.0 / 40.0, &k7),
                        ],
                        h,
                    );
                    let error = fifth
                        .iter()
                        .zip(&fourth)
                        .map(|(a, b)| (a - b).abs() / (val(solver.atol) + val(solver.rtol) * a.abs().max(b.abs())))
                        .fold(0.0, f64::max);
                    let wanted = if error > 0.0 { val(solver.safety_factor) * h * (1.0 / error).powf(0.2) } else { h * 2.0 };
                    match solver.after_attempt(attempt, num(error), solver.clamp_step(num(wanted))) {
                        AttemptVerdict::Accept => return Ok(proposal(t + h, &fifth, &flows, &aux)),
                        AttemptVerdict::Retry(step) => {
                            h = val(step);
                            attempt += 1;
                        }
                        _ => return Err(fail("RK45 failed".to_string())),
                    }
                }
            }
        }
    }

    fn interval_index(&self, time: Number, interval: Number) -> Number {
        num((val(time) / val(interval)).floor())
    }
}

fn step_with(engine: &mut SimulationEngine, method: Method) -> Result<(), String> {
    engine.step(&mut Stepper(method)).map_err(|e| e.message)
}

fn run_with(engine: &mut SimulationEngine, method: Method) -> Result<SimulationResults, String> {
    engine.run(&mut Stepper(method)).map_err(|e| e.message)
}

fn euler_step(engine: &mut SimulationEngine) -> Result<(), String> {
    step_with(engine, Method::Euler)
}

fn run(engine: &mut SimulationEngine) -> Result<SimulationResults, String> {
    run_with(engine, Method::Euler)
}

fn timed(model: &mut Model, start: f64, stop: f64, dt: f64) {
    model.set_time(TimeConfig { start: num(start), stop: num(stop), dt: num(dt), units: None });
}

fn growth_model() -> Model {
    let mut model = Model::new("Test");
    timed(&mut model, 0.0, 10.0, 1.0);
    model
        .add_stock(Stock::new("Population", "100").with_inflows(vec!["growth".to_string()]))
        .unwrap();
    model.add_parameter(Parameter::new("growth_rate", num(0.1))).unwrap();
    model.add_flow(Flow::new("growth", "Population * growth_rate")).unwrap();
    model
}

#[test]
fn test_simulation_engine_simple() {
    let mut engine = engine_for(growth_model(), SimulationConfig::default());
    let results = run(&mut engine).unwrap();
    assert!(results.times.len() > 0);
    assert_eq!(val(results.times[0]), 0.0);
    assert!(val(*results.times.last().unwrap()) <= 10.0);
    assert_eq!(results.times.len(), 11);
    for pair in results.times.windows(2) {
        assert!(val(pair[0]) < val(pair[1]));
    }
    for state in &results.states {
        assert_eq!(state.flows.len(), 1);
        assert_eq!(state.flows[0].name, "growth");
        assert_eq!(state.auxiliaries.len(), 0);
        assert_eq!(state.stocks[0].name, "Population");
    }
}

#[test]
fn test_euler_simple_growth() {
    let mut engine = engine_for(simple_growth(1.0), SimulationConfig::default());
    assert_eq!(engine.current_state().get("Population").map(val), Some(100.0));
    euler_step(&mut engine).unwrap();
    assert_eq!(engine.current_state().get("Population").map(val), Some(110.0));
    assert_eq!(val(engine.current_time()), 1.0);
}

#[test]
fn exponential_growth_with_euler() {
    let mut model = Model::new("growth");
    timed(&mut model, 0.0, 1.0, 1.0);
    model.add_stock(Stock::new("Population", "100").with_inflows(vec!["growth".to_string()])).unwrap();
    model.add_parameter(Parameter::new("r", num(0.1))).unwrap();
    model.add_flow(Flow::new("growth", "Population * r")).unwrap();
    let mut engine = engine_for(model, SimulationConfig::default());
    let results = run(&mut engine).unwrap();
    let series = results.get_variable_series("Population").unwrap();
    assert_eq!(val(*series.last().unwrap()), 110.0);
    assert_eq!(results.get_variable_series("growth").unwrap().len(), 2);
    assert!(results.get_variable_series("nothing").is_none());
}

#[test]
fn logistic_growth_with_euler() {
    let mut model = Model::new("logistic");
    timed(&mut model, 0.0, 20.0, 0.1);
    model.add_stock(Stock::new("P", "10").with_inflows(vec!["grow".to_string()])).unwrap();
    model.add_parameter(Parameter::new("r", num(0.5))).unwrap();
    model.add_parameter(Parameter::new("K", num(100.0))).unwrap();
    model.add_flow(Flow::new("grow", "r*P*(1 - P/K)")).unwrap();
    let mut engine = engine_for(model, SimulationConfig::default());
    let results = run(&mut engine).unwrap();
    let series = results.get_variable_series("P").unwrap();
    let last = val(*series.last().unwrap());
    assert!((last - 99.33).abs() / 99.33 < 0.01, "P(20) = {}", last);
    for pair in series.windows(2) {
        assert!(val(pair[0]) <= val(pair[1]));
        assert!(val(pair[1]) <= 100.0);
    }
}

#[test]
fn pulse_driven_accumulation() {
    let mut model = Model::new("pulse");
    timed(&mut model, 0.0, 10.0, 1.0);
    model.add_stock(Stock::new("Total", "0").with_inflows(vec!["input".to_string()])).unwrap();
    model.add_flow(Flow::new("input", "PULSE(5, 2)")).unwrap();
    let mut engine = engine_for(model, SimulationConfig::default());
    let results = run(&mut engine).unwrap();
    let series = results.get_variable_series("Total").unwrap();
    assert_eq!(val(*series.last().unwrap()), 2.0);
    assert_eq!(val(*results.times.last().unwrap()), 10.0);
}

#[test]
fn non_negative_stock_is_clamped() {
    let mut model = Model::new("tank");
    timed(&mut model, 0.0, 3.0, 1.0);
    model
        .add_stock(
            Stock::new("Tank", "5").with_outflows(vec!["drain".to_string()]).with_non_negative(true),
        )
        .unwrap();
    model.add_flow(Flow::new("drain", "10")).unwrap();
    let mut engine = engine_for(model, SimulationConfig::default());
    euler_step(&mut engine).unwrap();
    assert_eq!(val(engine.current_state().get("Tank").unwrap()), 0.0);
    let results = run(&mut engine).unwrap();
    for v in results.get_variable_series("Tank").unwrap() {
        assert!(val(v) >= 0.0);
    }
}

#[test]
fn ceiling_is_kept() {
    let mut model = Model::new("ceiling");
    timed(&mut model, 0.0, 5.0, 1.0);
    model
        .add_stock(Stock::new("Level", "1").with_inflows(vec!["fill".to_string()]).with_max_value(num(3.5)))
        .unwrap();
    model.add_flow(Flow::new("fill", "1")).unwrap();
    let stock = &model.stocks()[0];
    assert_eq!(val(stock.constrain(num(9.0))), 3.5);
    assert_eq!(val(stock.constrain(num(-9.0))), -9.0);
    assert_eq!(val(stock.constrain(num(f64::NAN))), 3.5);
    let mut engine = engine_for(model, SimulationConfig::default());
    let results = run(&mut engine).unwrap();
    let series: Vec<f64> = results.get_variable_series("Level").unwrap().iter().map(|&v| val(v)).collect();
    assert_eq!(series, vec![1.0, 2.0, 3.0, 3.5, 3.5, 3.5]);
}

#[test]
fn auxiliaries_settle_in_any_order() {
    let mut model = Model::new("aux");
    timed(&mut model, 0.0, 2.0, 1.0);
    model.add_stock(Stock::new("S", "1").with_inflows(vec!["f".to_string()])).unwrap();
    model.add_auxiliary(Auxiliary::new("b", "a * 2")).unwrap();
    model.add_auxiliary(Auxiliary::new("a", "S + 1")).unwrap();
    model.add_flow(Flow::new("f", "IF b >= 4 THEN b ELSE 0")).unwrap();
    let mut engine = engine_for(model, SimulationConfig::default());
    euler_step(&mut engine).unwrap();
    let state = engine.current_state();
    assert_eq!(val(state.get("a").unwrap()), 2.0);
    assert_eq!(val(state.get("b").unwrap()), 4.0);
    assert_eq!(val(state.get("f").unwrap()), 4.0);
    assert_eq!(val(state.get("S").unwrap()), 5.0);
}

#[test]
fn output_interval_thins_the_record() {
    let mut model = growth_model();
    timed(&mut model, 0.0, 10.0, 1.0);
    let config = SimulationConfig { integration_method: IntegrationMethod::Euler, output_interval: Some(num(5.0)) };
    let mut engine = engine_for(model, config);
    let results = run(&mut engine).unwrap();
    let times: Vec<f64> = results.times.iter().map(|&t| val(t)).collect();
    assert_eq!(times, vec![0.0, 5.0, 10.0]);
}

#[test]
fn run_stops_at_the_stop_time() {
    let mut model = growth_model();
    timed(&mut model, 0.0, 2.5, 1.0);
    let mut engine = engine_for(model, SimulationConfig::default());
    let results = run(&mut engine).unwrap();
    let times: Vec<f64> = results.times.iter().map(|&t| val(t)).collect();
    assert_eq!(times, vec![0.0, 1.0, 2.0, 2.5]);
    assert!(engine.is_finished());
}

#[test]
fn stepping_equals_running() {
    let mut stepped = engine_for(growth_model(), SimulationConfig::default());
    for _ in 0..10 {
        euler_step(&mut stepped).unwrap();
    }
    let mut ran = engine_for(growth_model(), SimulationConfig::default());
    let results = run(&mut ran).unwrap();
    let last = results.states.last().unwrap();
    assert_eq!(stepped.current_state().get("Population"), last.get("Population"));
    assert_eq!(stepped.current_time(), ran.current_time());
    let mut again = engine_for(growth_model(), SimulationConfig::default());
    let second = run(&mut again).unwrap();
    assert_eq!(second.times, results.times);
    assert_eq!(
        second.get_variable_series("Population").unwrap(),
        results.get_variable_series("Population").unwrap()
    );
}

#[test]
fn engine_rejects_what_cannot_run() {
    let mut model = growth_model();
    timed(&mut model, 0.0, 10.0, 0.0);
    assert_eq!(model.validate().unwrap_err().kind, ValidationErrorKind::TimeStep);
    let e = SimulationEngine::new(model, SimulationConfig::default(), &vec![num(100.0)]).unwrap_err();
    assert_eq!(e.kind, SimulationErrorKind::ModelValidationError);

    let mut model = growth_model();
    timed(&mut model, 5.0, 1.0, 1.0);
    assert_eq!(model.validate().unwrap_err().kind, ValidationErrorKind::TimeRange);

    let mut model = growth_model();
    model.add_stock(Stock::new("Other", "1").with_outflows(vec!["leak".to_string()])).unwrap();
    let error = model.validate().unwrap_err();
    assert_eq!(error.kind, ValidationErrorKind::MissingFlow);
    assert_eq!(error.stock, "Other");
    assert_eq!(error.flow, "leak");
    let e = SimulationEngine::new(model, SimulationConfig::default(), &vec![num(100.0), num(1.0)]).unwrap_err();
    assert_eq!(e.kind, SimulationErrorKind::MissingFlow);
    assert_eq!(e.name, "leak");
    assert_eq!(e.message, "Flow 'leak' not found for stock 'Other'");

    let config = SimulationConfig { integration_method: IntegrationMethod::RK4, output_interval: Some(num(0.0)) };
    let e = SimulationEngine::new(growth_model(), config, &vec![num(100.0)]).unwrap_err();
    assert_eq!(e.kind, SimulationErrorKind::ModelValidationError);
    let e = SimulationEngine::new(growth_model(), SimulationConfig::default(), &vec![]).unwrap_err();
    assert_eq!(e.kind, SimulationErrorKind::ModelValidationError);
    assert!(growth_model().validate().is_ok());
}

#[test]
fn engine_rejects_bad_proposals() {
    let mut engine = engine_for(growth_model(), SimulationConfig::default());
    let stalled = Proposal { time: num(0.0), stocks: vec![num(1.0)], flows: vec![num(1.0)], auxiliaries: vec![] };
    assert_eq!(engine.accept(&stalled).unwrap_err().kind, SimulationErrorKind::IntegratorFailure);
    let lost = Proposal { time: num(f64::NAN), stocks: vec![num(1.0)], flows: vec![num(1.0)], auxiliaries: vec![] };
    assert_eq!(engine.accept(&lost).unwrap_err().kind, SimulationErrorKind::IntegratorFailure);
    let short = Proposal { time: num(1.0), stocks: vec![], flows: vec![num(1.0)], auxiliaries: vec![] };
    assert_eq!(engine.accept(&short).unwrap_err().kind, SimulationErrorKind::IntegratorFailure);
    assert_eq!(val(engine.current_time()), 0.0);
    let far = Proposal { time: num(50.0), stocks: vec![num(7.0)], flows: vec![num(2.0)], auxiliaries: vec![] };
    engine.accept(&far).unwrap();
    assert_eq!(val(engine.current_time()), 10.0);
    assert_eq!(val(engine.current_state().get("Population").unwrap()), 7.0);
    assert_eq!(val(engine.current_state().get("growth").unwrap()), 2.0);
    let mut results = SimulationResults::new();
    assert!(!engine.record(&mut results));
    assert_eq!(results.times.len(), 0);
}

#[test]
fn parameters_can_be_set_between_steps() {
    let mut engine = engine_for(growth_model(), SimulationConfig::default());
    engine.set_parameter("growth_rate", num(0.5)).unwrap();
    assert_eq!(engine.set_parameter("rate", num(0.5)).unwrap_err(), "Parameter 'rate' not found");
    euler_step(&mut engine).unwrap();
    assert_eq!(val(engine.current_state().get("Population").unwrap()), 150.0);
    assert_eq!(val(engine.model().parameters()[0].value), 0.5);
}

#[test]
fn model_names_are_unique_within_a_kind() {
    let mut model = growth_model();
    assert_eq!(model.add_stock(Stock::new("Population", "1")).unwrap_err(), "Stock 'Population' already exists");
    assert_eq!(model.add_flow(Flow::new("growth", "1")).unwrap_err(), "Flow 'growth' already exists");
    assert_eq!(
        model.add_parameter(Parameter::new("growth_rate", num(1.0))).unwrap_err(),
        "Parameter 'growth_rate' already exists"
    );
    model.add_auxiliary(Auxiliary::new("growth", "1")).unwrap();
    assert_eq!(model.add_auxiliary(Auxiliary::new("growth", "2")).unwrap_err(), "Auxiliary 'growth' already exists");
    assert_eq!(model.stocks().len(), 1);
    assert_eq!(model.flows().len(), 1);
    assert_eq!(model.metadata().name, "Test");
    let broken = Stock::new("x", "1 +");
    assert!(matches!(broken.initial, Expression::Constant(ref t) if t == "0"));
}

#[test]
fn variables_resolve_in_order() {
    let mut model = growth_model();
    model.add_parameter(Parameter::new("Population", num(-1.0))).unwrap();
    let engine = engine_for(model, SimulationConfig::default());
    let context = EvaluationContext::new(engine.model(), engine.current_state(), num(3.0));
    assert_eq!(val(context.get_variable("Population").unwrap()), -1.0);
    assert_eq!(val(context.get_variable("growth").unwrap()), 0.0);
    assert_eq!(val(context.get_variable("time").unwrap()), 3.0);
    assert_eq!(val(context.get_variable("TIME").unwrap()), 3.0);
    assert_eq!(context.get_variable("missing").unwrap_err().name, "missing");
    assert_eq!(
        engine.model().get_variable("missing", engine.current_state()).unwrap_err(),
        "Variable 'missing' not found"
    );
}

#[test]
fn passes_follow_the_rules() {
    assert_eq!(after_pass(0, false, false), PassVerdict::Settled);
    assert_eq!(after_pass(0, true, false), PassVerdict::Again);
    assert_eq!(after_pass(4, false, true), PassVerdict::Again);
    assert_eq!(after_pass(5, false, true), PassVerdict::Failed);
    assert_eq!(after_pass(19, true, false), PassVerdict::GaveUp);
    assert_eq!(after_pass(18, true, false), PassVerdict::Again);
    assert!(!is_fatal_in(4));
    assert!(is_fatal_in(5));
}

#[test]
fn solver_verdicts() {
    let be = BackwardEulerIntegrator::default();
    assert_eq!(be.max_iterations, 20);
    assert_eq!(val(be.tolerance), 1e-6);
    assert_eq!(be.after_iteration(0, num(0.0)), SolveVerdict::Again);
    assert_eq!(be.after_iteration(1, num(1e-7)), SolveVerdict::Converged);
    assert_eq!(be.after_iteration(1, num(1e-6)), SolveVerdict::Again);
    assert_eq!(be.after_iteration(19, num(1.0)), SolveVerdict::GaveUp);
    let rk = RK45Integrator::default();
    assert_eq!(rk.after_attempt(0, num(1.0), num(0.5)), AttemptVerdict::Accept);
    assert_eq!(rk.after_attempt(0, num(1.5), num(0.5)), AttemptVerdict::Retry(num(0.5)));
    assert_eq!(rk.after_attempt(0, num(1.5), num(1e-11)), AttemptVerdict::StepTooSmall);
    assert_eq!(rk.after_attempt(9, num(1.5), num(0.5)), AttemptVerdict::Exhausted);
    assert_eq!(rk.after_attempt(3, num(f64::NAN), num(0.5)), AttemptVerdict::Retry(num(0.5)));
    assert_eq!(val(rk.first_step(num(5.0))), 1.0);
    assert_eq!(val(rk.first_step(num(0.1))), 0.1);
    assert_eq!(val(rk.clamp_step(num(1e-12))), 1e-10);
    assert_eq!(val(rk.clamp_step(num(3.0))), 1.0);
    let custom = RK45Integrator::new(num(1e-3), num(1e-4)).with_step_limits(num(0.01), num(0.5));
    assert_eq!(val(custom.clamp_step(num(3.0))), 0.5);
    assert_eq!(val(custom.rtol), 1e-3);
}

fn update_delay(delay: &mut ExponentialDelay, input: f64, dt: f64) {
    let stages: Vec<f64> = delay.stages.iter().map(|&s| val(s)).collect();
    let stage_delay = val(delay.delay_time) / stages.len() as f64;
    let mut next = Vec::new();
    for i in 0..stages.len() {
        let source = if i == 0 { input } else { stages[i - 1] };
        next.push(num(stages[i] + (source - stages[i]) / stage_delay * dt));
    }
    assert!(delay.set_stages(next));
}

fn push_delay(delay: &mut PipelineDelay, time: f64, value: f64) {
    let cutoff = time - val(delay.delay_time()) * 2.0;
    delay.push(num(time), num(value), num(cutoff));
}

fn delayed_value(delay: &PipelineDelay, current_time: f64) -> f64 {
    let target = current_time - val(delay.delay_time());
    match delay.locate(num(target)) {
        Delayed::Initial => val(delay.initial_value()),
        Delayed::Last(v) => val(v),
        Delayed::Between(i) => {
            let history = delay.history();
            let (t_prev, v_prev) = (val(history[i - 1].0), val(history[i - 1].1));
            let (t, v) = (val(history[i].0), val(history[i].1));
            v_prev + (target - t_prev) / (t - t_prev) * (v - v_prev)
        }
    }
}

#[test]
fn test_delay1() {
    let mut delay = ExponentialDelay::new(num(0.0), num(10.0), 1);

    for _ in 0..500 {
        update_delay(&mut delay, 1.0, 0.1);
    }

    let value = val(delay.get_value());
    assert!((value - 1.0).abs() < 0.1, "Got: {}", value);
    assert!((value - 0.9933).abs() < 1e-3, "Got: {}", value);
}

#[test]
fn test_pipeline_delay() {
    let mut delay = PipelineDelay::new(num(0.0), num(5.0));

    push_delay(&mut delay, 0.0, 0.0);
    push_delay(&mut delay, 1.0, 1.0);
    push_delay(&mut delay, 2.0, 2.0);
    push_delay(&mut delay, 10.0, 10.0);

    let delayed = delayed_value(&delay, 10.0);
    assert!((delayed - 5.0).abs() < 0.1);
}

#[test]
fn delays_keep_their_shape() {
    let third = ExponentialDelay::new(num(2.0), num(9.0), 3);
    assert_eq!(third.stages.len(), 3);
    assert_eq!(ExponentialDelay::new(num(2.0), num(9.0), 0).stages.len(), 1);
    let mut first = ExponentialDelay::new(num(2.0), num(9.0), 1);
    assert!(!first.set_stages(vec![num(1.0), num(2.0)]));
    assert!(!first.set_stages(vec![]));
    assert!(first.set_stages(vec![num(7.0)]));
    assert_eq!(val(first.get_value()), 7.0);

    let mut pipe = PipelineDelay::new(num(-1.0), num(1.0));
    assert_eq!(pipe.locate(num(0.0)), Delayed::Initial);
    for t in 0..10 {
        push_delay(&mut pipe, t as f64, (t * t) as f64);
    }
    let times: Vec<f64> = pipe.history().iter().map(|p| val(p.0)).collect();
    assert_eq!(times, vec![7.0, 8.0, 9.0]);
    assert_eq!(pipe.locate(num(7.0)), Delayed::Initial);
    assert_eq!(pipe.locate(num(7.5)), Delayed::Between(1));
    assert_eq!(pipe.locate(num(8.0)), Delayed::Between(1));
    assert_eq!(pipe.locate(num(9.5)), Delayed::Last(num(81.0)));
    assert_eq!(delayed_value(&pipe, 9.5), 72.5);

    let mut manager = DelayManager::new();
    assert_eq!(manager.get_or_create_exponential("DELAY1_x_5", num(1.0), num(5.0), 1), 0);
    assert_eq!(manager.get_or_create_exponential("DELAY3_x_5", num(2.0), num(5.0), 3), 1);
    assert_eq!(manager.get_or_create_exponential("DELAY1_x_5", num(9.0), num(9.0), 9), 0);
    assert_eq!(val(manager.exponential_delays[0].delay.get_value()), 1.0);
    assert_eq!(manager.exponential_delays[1].delay.stages.len(), 3);
    assert_eq!(manager.get_or_create_pipeline("DELAYP_x_5_0", num(0.0), num(5.0)), 0);
    assert_eq!(manager.get_or_create_pipeline("DELAYP_x_5_0", num(0.0), num(5.0)), 0);
    assert_eq!(manager.pipeline_delays.len(), 1);
}

fn simple_growth(dt: f64) -> Model {
    let mut model = Model::new("Growth");
    timed(&mut model, 0.0, 100.0, dt);
    model.add_stock(Stock::new("Population", "100").with_inflows(vec!["growth".to_string()])).unwrap();
    model.add_parameter(Parameter::new("growth_rate", num(0.1))).unwrap();
    model.add_flow(Flow::new("growth", "Population * growth_rate")).unwrap();
    model
}

#[test]
fn test_heun_growth() {
    let mut engine = engine_for(simple_growth(1.0), SimulationConfig::default());
    step_with(&mut engine, Method::Heun).unwrap();
    let population = val(engine.current_state().get("Population").unwrap());
    assert!(population > 110.0);
    assert!((population - 110.5).abs() < 1e-9);
}

#[test]
fn test_backward_euler_growth() {
    let mut engine = engine_for(simple_growth(1.0), SimulationConfig::default());
    step_with(&mut engine, Method::BackwardEuler).unwrap();
    let population = val(engine.current_state().get("Population").unwrap());
    assert!(population > 100.0);
    assert!(population < 150.0);
}

fn exponential(k_sign: &str, start_value: &str, k: f64, stop: f64, dt: f64) -> Model {
    let mut model = Model::new("Test");
    timed(&mut model, 0.0, stop, dt);
    let stock = Stock::new("X", start_value);
    let stock = if k_sign == "+" { stock.with_inflows(vec!["f".to_string()]) } else { stock.with_outflows(vec!["f".to_string()]) };
    model.add_stock(stock).unwrap();
    model.add_parameter(Parameter::new("k", num(k))).unwrap();
    model.add_flow(Flow::new("f", "X * k")).unwrap();
    model
}

#[test]
fn test_integrator_comparison() {
    let after = |method: Method| {
        let mut engine = engine_for(exponential("+", "1.0", 1.0, 10.0, 0.1), SimulationConfig::default());
        step_with(&mut engine, method).unwrap();
        val(engine.current_state().get("X").unwrap())
    };
    let exact = 1.0_f64.exp().powf(0.1);
    let rk4 = after(Method::Rk4);
    assert!(rk4 > 1.0);
    assert!((rk4 - exact).abs() < (after(Method::Heun) - exact).abs());
    assert!((after(Method::Heun) - exact).abs() < (after(Method::Euler) - exact).abs());
    assert!((after(Method::BackwardEuler) - exact).abs() < 0.01);
    assert!((after(Method::Rk45) - exact).abs() < 1e-6);
}

#[test]
fn exponential_decay_with_rk4() {
    let mut engine = engine_for(exponential("-", "10", 0.5, 1.0, 0.1), SimulationConfig::default());
    let results = run_with(&mut engine, Method::Rk4).unwrap();
    let last = val(*results.get_variable_series("X").unwrap().last().unwrap());
    assert!((last - 6.0653066).abs() < 1e-4, "X(1) = {}", last);
    assert!(val(*results.times.last().unwrap()) <= 1.0);
}

#[test]
fn halving_the_step_shrinks_the_error_by_the_order() {
    let error = |method: Method, dt: f64| {
        let mut engine = engine_for(exponential("+", "1", 1.0, 1.0, dt), SimulationConfig::default());
        let results = run_with(&mut engine, method).unwrap();
        (val(*results.get_variable_series("X").unwrap().last().unwrap()) - 1.0_f64.exp()).abs()
    };
    let ratio = |method: Method| error(method, 0.125) / error(method, 0.0625);
    assert!((ratio(Method::Euler) - 2.0).abs() < 0.3, "{}", ratio(Method::Euler));
    assert!((ratio(Method::Heun) - 4.0).abs() < 0.6, "{}", ratio(Method::Heun));
    assert!((ratio(Method::Rk4) - 16.0).abs() < 3.0, "{}", ratio(Method::Rk4));
}

#[test]
fn adaptive_steps_reach_the_stop_time() {
    let mut engine = engine_for(exponential("-", "10", 0.5, 2.0, 0.5), SimulationConfig::default());
    let results = run_with(&mut engine, Method::Rk45).unwrap();
    assert_eq!(val(*results.times.last().unwrap()), 2.0);
    let last = val(*results.get_variable_series("X").unwrap().last().unwrap());
    assert!((last - 10.0 * (-1.0_f64).exp()).abs() < 1e-5, "{}", last);
    for pair in results.times.windows(2) {
        assert!(val(pair[0]) < val(pair[1]));
    }
}

struct Refusing;

impl Integrator for Refusing {
    fn step(&mut self, _model: &Model, _state: &SimulationState, _dt: Number) -> Result<Proposal, SimulationError> {
        Err(fail("no step".to_string()))
    }

    fn interval_index(&self, time: Number, _interval: Number) -> Number {
        time
    }
}

#[test]
fn a_finished_run_records_its_state_and_takes_no_step() {
    let mut model = growth_model();
    timed(&mut model, 0.0, 2.0, 1.0);
    let mut engine = engine_for(model, SimulationConfig::default());
    assert!(engine.run(&mut Refusing).is_err());
    assert_eq!(val(engine.current_time()), 0.0);
    let first = run(&mut engine).unwrap();
    assert_eq!(first.times.len(), 3);
    assert!(engine.is_finished());
    let reached = engine.current_state().stocks[0].value;
    let again = engine.run(&mut Refusing).unwrap();
    assert_eq!(again.times.len(), 1);
    assert_eq!(again.states.len(), 1);
    assert_eq!(val(again.times[0]), 2.0);
    assert_eq!(again.states[0].stocks[0].value, reached);
    assert_eq!(val(engine.current_time()), 2.0);
}

#[test]
fn a_run_records_where_it_ends() {
    let mut model = growth_model();
    timed(&mut model, 0.0, 2.5, 1.0);
    let mut engine = engine_for(model, SimulationConfig::default());
    let results = run(&mut engine).unwrap();
    assert!(results.times.len() >= 2);
    assert_eq!(val(*results.times.last().unwrap()), 2.5);
    assert_eq!(val(engine.current_time()), 2.5);
    let last = results.states.last().unwrap();
    assert_eq!(last.time, engine.current_time());
    assert_eq!(last.stocks[0].value, engine.current_state().stocks[0].value);
    assert_eq!(last.flows[0].value, engine.current_state().flows[0].value);
}

#[test]
fn a_new_engine_starts_with_flows_at_zero() {
    let mut model = growth_model();
    model.add_auxiliary(Auxiliary::new("double", "Population * 2")).unwrap();
    let engine = engine_for(model, SimulationConfig::default());
    assert_eq!(engine.current_state().flows.len(), 1);
    assert_eq!(val(engine.current_state().flows[0].value), 0.0);
    assert_eq!(engine.current_state().auxiliaries.len(), 1);
    assert_eq!(val(engine.current_state().auxiliaries[0].value), 0.0);
}

#[test]
fn a_refused_engine_says_why() {
    let mut model = growth_model();
    timed(&mut model, 0.0, 10.0, 0.0);
    let e = SimulationEngine::new(model, SimulationConfig::default(), &vec![num(100.0)]).unwrap_err();
    assert_eq!(e.kind, SimulationErrorKind::ModelValidationError);
    assert_eq!(e.name, "dt");
    let mut model = growth_model();
    timed(&mut model, 5.0, 1.0, 1.0);
    let e = SimulationEngine::new(model, SimulationConfig::default(), &vec![num(100.0)]).unwrap_err();
    assert_eq!(e.kind, SimulationErrorKind::ModelValidationError);
    assert_eq!(e.name, "stop");
    let mut model = Model::new("m");
    model.add_stock(Stock::new("S", "1").with_inflows(vec!["absent".to_string()])).unwrap();
    let e = SimulationEngine::new(model, SimulationConfig::default(), &vec![num(1.0)]).unwrap_err();
    assert_eq!(e.kind, SimulationErrorKind::MissingFlow);
    assert_eq!(e.name, "absent");
    assert_eq!(e.message, "Flow 'absent' not found for stock 'S'");
    let config = SimulationConfig { integration_method: IntegrationMethod::Euler, output_interval: Some(num(0.0)) };
    let e = SimulationEngine::new(growth_model(), config, &vec![num(100.0)]).unwrap_err();
    assert_eq!(e.kind, SimulationErrorKind::ModelValidationError);
    assert_eq!(e.name, "output_interval");
    let e = SimulationEngine::new(growth_model(), SimulationConfig::default(), &vec![]).unwrap_err();
    assert_eq!(e.kind, SimulationErrorKind::ModelValidationError);
    assert_eq!(e.name, "initial values");
}

#[test]
fn each_stock_keeps_its_own_limits() {
    let odd = Stock::new("odd", "0").with_non_negative(true).with_max_value(num(-1.0));
    assert_eq!(val(odd.constrain(num(5.0))), -1.0);
    let unbounded = Stock::new("nan", "0").with_non_negative(true).with_max_value(num(f64::NAN));
    assert_eq!(val(unbounded.constrain(num(-3.0))), 0.0);
    assert_eq!(val(unbounded.constrain(num(7.0))), 7.0);
    let sound = Stock::new("sound", "0").with_non_negative(true).with_max_value(num(10.0));
    assert_eq!(val(sound.constrain(num(-3.0))), 0.0);
    assert_eq!(val(sound.constrain(num(30.0))), 10.0);
    assert_eq!(val(sound.constrain(num(f64::NAN))), 0.0);
    let mut model = Model::new("m");
    model.add_stock(odd).unwrap();
    model.add_stock(sound).unwrap();
    let next = SimulationState::accept(&model, &proposal(1.0, &[4.0, 40.0], &[], &[])).unwrap();
    assert_eq!(val(next.stocks[0].value), -1.0);
    assert_eq!(val(next.stocks[1].value), 10.0);
}

#[test]
fn octaves_are_renewed_at_multiples_of_their_power_of_two() {
    assert!(renews_octave(0, 0));
    assert!(renews_octave(0, 70));
    assert!(renews_octave(7, 0));
    assert!(!renews_octave(7, 1));
    assert!(renews_octave(8, 3));
    assert!(!renews_octave(8, 4));
    assert!(renews_octave(1u64 << 63, 63));
    assert!(!renews_octave(1u64 << 63, 64));
    assert!(!renews_octave(u64::MAX, 64));
}
