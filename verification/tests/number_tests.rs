use rsedsim::model::functions::{
    call_site_key, compare_values, is_truthy, is_zero_divisor, lookup_points, pulse_value,
    ramp_phase, repeating_pulse_value, resolve_call, step_value, Builtin, EvalErrorKind, RampPhase,
};
use rsedsim::model::expression::{Expression, Operator};
use rsedsim::analysis::stability::{
    classify_stability, has_oscillations, has_zero_modes, largest_real_part, StabilityType,
};
use rsedsim::number::Number;
use rsedsim::simulation::lookup::{Located, LookupTable};

fn num(x: f64) -> Number {
    Number::from_bits(x.to_bits())
}

fn val(n: Number) -> f64 {
    f64::from_bits(n.to_bits())
}

fn samples() -> Vec<f64> {
    vec![
        0.0,
        -0.0,
        1.0,
        -1.0,
        0.5,
        -0.5,
        1e-310,
        -1e-310,
        5e-324,
        f64::MIN_POSITIVE,
        f64::MAX,
        f64::MIN,
        f64::INFINITY,
        f64::NEG_INFINITY,
        f64::NAN,
        -f64::NAN,
        3.141592653589793,
        -2.718281828459045,
        1e300,
        -1e300,
        100.0,
        0.25,
    ]
}

#[test]
fn number_order_is_the_order_of_doubles() {
    for &a in &samples() {
        assert_eq!(num(a).is_nan(), a.is_nan(), "is_nan {}", a);
        for &b in &samples() {
            assert_eq!(num(a).lt(&num(b)), a < b, "{} < {}", a, b);
            assert_eq!(num(a).le(&num(b)), a <= b, "{} <= {}", a, b);
            assert_eq!(num(a).gt(&num(b)), a > b, "{} > {}", a, b);
            assert_eq!(num(a).ge(&num(b)), a >= b, "{} >= {}", a, b);
            assert_eq!(num(a).equals(&num(b)), a == b, "{} == {}", a, b);
            let hi = val(num(a).max(num(b)));
            let lo = val(num(a).min(num(b)));
            let want_hi = a.max(b);
            let want_lo = a.min(b);
            assert!(hi == want_hi || (hi.is_nan() && want_hi.is_nan()), "max {} {}", a, b);
            assert!(lo == want_lo || (lo.is_nan() && want_lo.is_nan()), "min {} {}", a, b);
        }
    }
}

#[test]
fn number_constants() {
    assert_eq!(val(Number::zero()), 0.0);
    assert_eq!(val(Number::one()), 1.0);
    assert_eq!(val(Number::from_bits(rsedsim::model::functions::HALF_BITS)), 0.5);
    assert_eq!(val(Number::from_bits(rsedsim::model::functions::MINUS_ONE_BITS)), -1.0);
    assert_eq!(val(Number::from_bits(rsedsim::model::HUNDRED_BITS)), 100.0);
    assert_eq!(val(Number::from_bits(rsedsim::model::QUARTER_BITS)), 0.25);
    assert_eq!(val(Number::from_bits(rsedsim::simulation::integrator::MICRO_BITS)), 1e-6);
    assert_eq!(val(Number::from_bits(rsedsim::simulation::integrator::TEN_NANO_BITS)), 1e-8);
    assert_eq!(val(Number::from_bits(rsedsim::simulation::integrator::TENTH_NANO_BITS)), 1e-10);
    assert_eq!(val(Number::from_bits(rsedsim::simulation::integrator::NINE_TENTHS_BITS)), 0.9);
}

#[test]
fn function_names_ignore_case() {
    assert_eq!(Builtin::from_name("min"), Some(Builtin::Min));
    assert_eq!(Builtin::from_name("Max"), Some(Builtin::Max));
    assert_eq!(Builtin::from_name("MODULO"), Some(Builtin::Modulo));
    assert_eq!(Builtin::from_name("mod"), Some(Builtin::Modulo));
    assert_eq!(Builtin::from_name("With_Lookup"), Some(Builtin::WithLookup));
    assert_eq!(Builtin::from_name("log10"), Some(Builtin::Log10));
    assert_eq!(Builtin::from_name("LOG"), Some(Builtin::Log));
    assert_eq!(Builtin::from_name("smooth"), Some(Builtin::Smooth));
    assert_eq!(Builtin::from_name("DELAYP"), Some(Builtin::DelayP));
    assert_eq!(Builtin::from_name("time"), Some(Builtin::Time));
    assert_eq!(Builtin::from_name("TIMES"), None);
    assert_eq!(Builtin::from_name(""), None);
    assert_eq!(Builtin::from_name("LOOKUP"), None);
}

#[test]
fn calls_are_checked_for_arity() {
    assert_eq!(resolve_call("MIN", 1).unwrap(), Builtin::Min);
    assert_eq!(resolve_call("MIN", 0).unwrap_err().kind, EvalErrorKind::ArityMismatch);
    assert_eq!(resolve_call("ABS", 2).unwrap_err().kind, EvalErrorKind::ArityMismatch);
    assert_eq!(resolve_call("PULSE", 3).unwrap(), Builtin::Pulse);
    assert_eq!(resolve_call("PULSE", 4).unwrap_err().kind, EvalErrorKind::ArityMismatch);
    assert_eq!(resolve_call("TIME", 0).unwrap(), Builtin::Time);
    assert_eq!(resolve_call("TIME", 1).unwrap_err().name, "TIME");
    assert_eq!(resolve_call("WITH_LOOKUP", 5).unwrap(), Builtin::WithLookup);
    assert_eq!(resolve_call("WITH_LOOKUP", 4).unwrap_err().kind, EvalErrorKind::ArityMismatch);
    assert_eq!(resolve_call("WITH_LOOKUP", 1).unwrap_err().kind, EvalErrorKind::ArityMismatch);
    assert_eq!(resolve_call("DELAYP", 2).unwrap_err().kind, EvalErrorKind::ArityMismatch);
    assert_eq!(resolve_call("FOO", 1).unwrap_err().kind, EvalErrorKind::UnknownFunction);
    assert_eq!(resolve_call("FOO", 1).unwrap_err().name, "FOO");
    assert_eq!(Builtin::Delay3.delay_order(), 3);
    assert_eq!(Builtin::Delay1.delay_order(), 1);
    assert_eq!(Builtin::Smooth.delay_order(), 1);
}

#[test]
fn functions_have_domains() {
    assert!(Builtin::Ln.is_defined_on(&vec![num(1.0)]));
    assert!(!Builtin::Ln.is_defined_on(&vec![num(0.0)]));
    assert!(!Builtin::Log10.is_defined_on(&vec![num(-3.0)]));
    assert!(Builtin::Log.is_defined_on(&vec![num(f64::NAN)]));
    assert!(Builtin::Asin.is_defined_on(&vec![num(1.0)]));
    assert!(Builtin::Asin.is_defined_on(&vec![num(-1.0)]));
    assert!(!Builtin::Acos.is_defined_on(&vec![num(1.0000001)]));
    assert!(!Builtin::Modulo.is_defined_on(&vec![num(5.0), num(0.0)]));
    assert!(!Builtin::Modulo.is_defined_on(&vec![num(5.0), num(-0.0)]));
    assert!(Builtin::Modulo.is_defined_on(&vec![num(5.0), num(2.0)]));
    assert!(Builtin::Pulse.is_defined_on(&vec![num(5.0), num(2.0)]));
    assert!(!Builtin::Pulse.is_defined_on(&vec![num(5.0), num(2.0), num(0.0)]));
    assert!(Builtin::Pulse.is_defined_on(&vec![num(5.0), num(2.0), num(10.0)]));
    assert!(Builtin::Sqrt.is_defined_on(&vec![num(-1.0)]));
}

#[test]
fn pulse_is_one_exactly_on_its_window() {
    let (s, w) = (5.0, 2.0);
    for &(t, want) in &[(4.0, 0.0), (4.999999, 0.0), (5.0, 1.0), (6.0, 1.0), (6.999999, 1.0), (7.0, 0.0), (8.0, 0.0)] {
        assert_eq!(val(pulse_value(num(s), num(s + w), num(t))), want, "t = {}", t);
    }
    assert_eq!(val(pulse_value(num(s), num(s + w), num(f64::NAN))), 0.0);
}

#[test]
fn repeating_pulse_follows_its_phase() {
    let (s, w, p) = (2.0_f64, 1.0_f64, 5.0_f64);
    for &(t, want) in &[(0.0, 0.0), (1.9, 0.0), (2.0, 1.0), (2.5, 1.0), (3.0, 0.0), (6.9, 0.0), (7.0, 1.0), (7.5, 1.0), (8.0, 0.0), (12.0, 1.0)] {
        let phase: f64 = (t - s) % p;
        assert_eq!(val(repeating_pulse_value(num(s), num(w), num(t), num(phase))), want, "t = {}", t);
    }
}

#[test]
fn step_switches_exactly_at_its_time() {
    assert_eq!(val(step_value(num(3.0), num(10.0), num(9.999999999))), 0.0);
    assert_eq!(val(step_value(num(3.0), num(10.0), num(10.0))), 3.0);
    assert_eq!(val(step_value(num(3.0), num(10.0), num(11.0))), 3.0);
    assert_eq!(val(step_value(num(-2.5), num(0.0), num(-0.0))), -2.5);
    assert_eq!(val(step_value(num(3.0), num(10.0), num(f64::NAN))), 0.0);
}

#[test]
fn ramp_phases() {
    assert_eq!(ramp_phase(num(2.0), None, num(1.0)), RampPhase::Before);
    assert_eq!(ramp_phase(num(2.0), None, num(2.0)), RampPhase::Rising);
    assert_eq!(ramp_phase(num(2.0), None, num(1e9)), RampPhase::Rising);
    assert_eq!(ramp_phase(num(2.0), Some(num(5.0)), num(4.999)), RampPhase::Rising);
    assert_eq!(ramp_phase(num(2.0), Some(num(5.0)), num(5.0)), RampPhase::Clamped);
    assert_eq!(ramp_phase(num(2.0), Some(num(5.0)), num(7.0)), RampPhase::Clamped);
    assert_eq!(ramp_phase(num(2.0), Some(num(5.0)), num(0.0)), RampPhase::Before);
}

#[test]
fn comparisons_and_truth() {
    assert_eq!(val(compare_values(Operator::GreaterThan, num(2.0), num(1.0))), 1.0);
    assert_eq!(val(compare_values(Operator::GreaterThan, num(1.0), num(1.0))), 0.0);
    assert_eq!(val(compare_values(Operator::GreaterEqual, num(1.0), num(1.0))), 1.0);
    assert_eq!(val(compare_values(Operator::LessThan, num(1.0), num(2.0))), 1.0);
    assert_eq!(val(compare_values(Operator::LessEqual, num(3.0), num(2.0))), 0.0);
    assert_eq!(val(compare_values(Operator::LessEqual, num(f64::NAN), num(2.0))), 0.0);
    assert!(is_truthy(num(1.0)));
    assert!(is_truthy(num(0.51)));
    assert!(!is_truthy(num(0.5)));
    assert!(!is_truthy(num(0.0)));
    assert!(!is_truthy(num(f64::NAN)));
    assert!(is_zero_divisor(num(0.0)));
    assert!(is_zero_divisor(num(-0.0)));
    assert!(!is_zero_divisor(num(1e-300)));
    assert!(!is_zero_divisor(num(f64::NAN)));
}

#[test]
fn call_sites_have_keys() {
    let args = vec![Expression::parse("input * 2").unwrap(), Expression::parse("10").unwrap()];
    assert_eq!(call_site_key("DELAY1", &args), "DELAY1_(input * 2)_10");
    assert_eq!(call_site_key("smooth", &Vec::new()), "smooth_");
}

fn lookup(table: &LookupTable, x: f64) -> f64 {
    match table.locate(num(x)) {
        Located::Value(y) => val(y),
        Located::Between(i) => {
            let (x1, y1) = (val(table.points[i - 1].0), val(table.points[i - 1].1));
            let (x2, y2) = (val(table.points[i].0), val(table.points[i].1));
            let alpha = (x - x1) / (x2 - x1);
            y1 + alpha * (y2 - y1)
        }
    }
}

fn table(points: &[(f64, f64)]) -> Result<LookupTable, String> {
    LookupTable::new("test".to_string(), points.iter().map(|&(x, y)| (num(x), num(y))).collect())
}

#[test]
fn test_lookup_interpolation() {
    let table = table(&[(0.0, 0.0), (1.0, 10.0), (2.0, 5.0)]).unwrap();

    // Exact points
    assert_eq!(lookup(&table, 0.0), 0.0);
    assert_eq!(lookup(&table, 1.0), 10.0);
    assert_eq!(lookup(&table, 2.0), 5.0);

    // Interpolation
    assert_eq!(lookup(&table, 0.5), 5.0);
    assert_eq!(lookup(&table, 1.5), 7.5);

    // Extrapolation
    assert_eq!(lookup(&table, -1.0), 0.0);
    assert_eq!(lookup(&table, 3.0), 5.0);
}

#[test]
fn lookup_tables_are_checked() {
    assert_eq!(table(&[]).unwrap_err(), "Lookup table must have at least one point");
    assert_eq!(
        table(&[(0.0, 1.0), (2.0, 1.0), (1.0, 1.0)]).unwrap_err(),
        "Lookup table points must be sorted by x value"
    );
    assert!(table(&[(0.0, 1.0), (0.0, 2.0)]).is_ok());
    let t = table(&[(0.0, 1.0), (1.0, 1e16), (2.0, 3.0), (2.0, 4.0), (5.0, 6.0)]).unwrap();
    assert_eq!(t.locate(num(1.0)), Located::Value(num(1e16)));
    assert_eq!(t.locate(num(2.0)), Located::Value(num(3.0)));
    assert_eq!(t.locate(num(0.5)), Located::Between(1));
    assert_eq!(t.locate(num(3.0)), Located::Between(4));
    assert_eq!(t.locate(num(-7.0)), Located::Value(num(1.0)));
    assert_eq!(t.locate(num(5.0)), Located::Value(num(6.0)));
    assert_eq!(t.locate(num(f64::NAN)), Located::Value(num(6.0)));
    let empty = LookupTable { name: "e".to_string(), points: Vec::new() };
    assert_eq!(empty.locate(num(1.0)), Located::Value(num(0.0)));
}

#[test]
fn inline_lookup_points_pair_up() {
    let values: Vec<Number> = [7.0, 0.0, 0.0, 10.0, 100.0, 20.0, 50.0].iter().map(|&x| num(x)).collect();
    let points = lookup_points(&values);
    assert_eq!(points, vec![(num(0.0), num(0.0)), (num(10.0), num(100.0)), (num(20.0), num(50.0))]);
}

#[test]
fn sign_and_magnitude() {
    for &a in &samples() {
        let abs = val(num(a).abs());
        let neg = val(num(a).neg());
        assert!(abs.to_bits() == a.abs().to_bits(), "abs {}", a);
        assert!(neg.to_bits() == (-a).to_bits(), "neg {}", a);
    }
}

#[test]
fn numbers_sort_as_doubles_do() {
    let mut doubles: Vec<f64> = samples().into_iter().filter(|x| !x.is_nan()).collect();
    doubles.extend([3.0, 3.0, -7.25, 0.0]);
    let sorted = rsedsim::number::sorted_numbers(&doubles.iter().map(|&x| num(x)).collect());
    doubles.sort_by(|a, b| a.partial_cmp(b).unwrap());
    let got: Vec<u64> = sorted.iter().map(|n| n.to_bits()).collect();
    let want: Vec<u64> = doubles.iter().map(|x| x.to_bits()).collect();
    assert_eq!(got, want);
    assert!(rsedsim::number::sorted_numbers(&Vec::new()).is_empty());
}

#[test]
fn eigenvalues_tell_stability() {
    let of = |values: &[(f64, f64)]| classify_stability(&values.iter().map(|&(re, im)| (num(re), num(im))).collect());
    assert_eq!(of(&[(-1.0, 0.0), (-0.5, 0.0)]), StabilityType::Stable);
    assert_eq!(of(&[(-1.0, 0.0), (0.5, 0.0)]), StabilityType::Unstable);
    assert_eq!(of(&[(-1.0, 2.0), (-1.0, -2.0)]), StabilityType::Oscillatory);
    assert_eq!(of(&[(1.0, 2.0), (1.0, -2.0)]), StabilityType::Oscillatory);
    assert_eq!(of(&[(0.0, 1.0), (0.0, -1.0)]), StabilityType::MarginallyStable);
    assert_eq!(of(&[(-1.0, 0.0), (1e-9, 0.0)]), StabilityType::MarginallyStable);
    assert_eq!(of(&[(1e-8, 0.0)]), StabilityType::Unknown);
    assert_eq!(of(&[]), StabilityType::Stable);
    assert_eq!(of(&[(f64::NAN, 0.0)]), StabilityType::Stable);
}

#[test]
fn eigenvalues_are_summarised() {
    let pairs = vec![(num(-2.0), num(0.0)), (num(-0.5), num(3.0)), (num(-0.5), num(-3.0))];
    assert_eq!(val(largest_real_part(&pairs)), -0.5);
    assert!(has_oscillations(&pairs));
    assert!(!has_zero_modes(&pairs));
    assert_eq!(classify_stability(&pairs), StabilityType::Oscillatory);
    let still = vec![(num(0.0), num(0.0)), (num(-1.0), num(1e-12))];
    assert_eq!(val(largest_real_part(&still)), 0.0);
    assert!(!has_oscillations(&still));
    assert!(has_zero_modes(&still));
    assert_eq!(classify_stability(&still), StabilityType::MarginallyStable);
    let none: Vec<(Number, Number)> = Vec::new();
    assert_eq!(val(largest_real_part(&none)), f64::NEG_INFINITY);
    assert!(!has_oscillations(&none));
}
