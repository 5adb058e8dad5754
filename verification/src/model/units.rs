//! Dimensional analysis: formulas over the SI base dimensions and a checker
//! that keeps the units of named variables.

use vstd::prelude::*;
use vstd::string::*;
use crate::text::{concat3, decimal, decimal_text, is_text, join, joined, lowercase, lowercased, trim, trimmed};

verus! {

/// The SI base dimensions.
#[derive(Debug, Clone, Copy, PartialEq, Eq, Hash, Structural)]
pub enum BaseDimension {
    /// metre
    Length,
    /// kilogram
    Mass,
    /// second
    Time,
    /// ampere
    Current,
    /// kelvin
    Temperature,
    /// mole
    Amount,
    /// candela
    Luminosity,
}

/// A product of powers of base dimensions, such as velocity = Length^1 * Time^-1.
/// A dimension that does not take part has no entry; an entry may also hold zero.
#[derive(Debug, Clone, Copy, PartialEq, Eq)]
pub struct DimensionalFormula {
    pub length: Option<i32>,
    pub mass: Option<i32>,
    pub time: Option<i32>,
    pub current: Option<i32>,
    pub temperature: Option<i32>,
    pub amount: Option<i32>,
    pub luminosity: Option<i32>,
}

/// The power an entry stands for: zero where there is none.
pub open spec fn power_of(entry: Option<i32>) -> int {
    match entry {
        Some(p) => p as int,
        None => 0,
    }
}

/// The entry that holds `sum`, or none when `sum` is zero.
pub open spec fn nonzero_entry(sum: int) -> Option<i32> {
    if sum != 0 {
        Some(sum as i32)
    } else {
        None
    }
}

/// The power of `b`, negated when `subtract` is set.
pub open spec fn signed_power(b: Option<i32>, subtract: bool) -> int {
    if subtract {
        -power_of(b)
    } else {
        power_of(b)
    }
}

/// Whether `b`, if present, can be added to `a`, or taken from it when `subtract` is set.
pub open spec fn can_merge(a: Option<i32>, b: Option<i32>, subtract: bool) -> bool {
    b is Some ==> i32::MIN <= power_of(a) + signed_power(b, subtract) <= i32::MAX
}

/// Whether an entry can be multiplied by `exponent`.
pub open spec fn can_raise(a: Option<i32>, exponent: i32) -> bool {
    a is Some ==> i32::MIN <= power_of(a) * exponent <= i32::MAX
}

/// An entry multiplied by `exponent`; an entry stays an entry, even at zero.
pub open spec fn raised(a: Option<i32>, exponent: i32) -> Option<i32> {
    match a {
        Some(p) => Some((p * exponent) as i32),
        None => None,
    }
}

/// The unit symbol of a base dimension.
pub open spec fn symbol(d: BaseDimension) -> Seq<char> {
    match d {
        BaseDimension::Length => "m"@,
        BaseDimension::Mass => "kg"@,
        BaseDimension::Time => "s"@,
        BaseDimension::Current => "A"@,
        BaseDimension::Temperature => "K"@,
        BaseDimension::Amount => "mol"@,
        BaseDimension::Luminosity => "cd"@,
    }
}

/// A symbol with its power: the bare symbol for power one, else `symbol^power`.
pub open spec fn factor_text(sym: Seq<char>, magnitude: nat) -> Seq<char> {
    if magnitude == 1 {
        sym
    } else {
        sym + "^"@ + decimal_text(magnitude)
    }
}

/// The factor an entry adds to the numerator (`positive`) or to the denominator.
pub open spec fn factor_of(d: BaseDimension, entry: Option<i32>, positive: bool) -> Seq<Seq<char>> {
    if positive && power_of(entry) > 0 {
        seq![factor_text(symbol(d), power_of(entry) as nat)]
    } else if !positive && power_of(entry) < 0 {
        seq![factor_text(symbol(d), (-power_of(entry)) as nat)]
    } else {
        Seq::empty()
    }
}

/// The formula that a normalised unit name stands for; dimensionless when the
/// name is not known.
pub open spec fn named_formula(name: Seq<char>) -> DimensionalFormula {
    if name == "m"@ || name == "meter"@ || name == "meters"@ {
        length_formula()
    } else if name == "kg"@ || name == "kilogram"@ || name == "kilograms"@ {
        mass_formula()
    } else if name == "s"@ || name == "second"@ || name == "seconds"@ {
        time_formula()
    } else if name == "m/s"@ || name == "meter/second"@ {
        velocity_formula()
    } else if name == "m/s^2"@ || name == "m/s2"@ {
        acceleration_formula()
    } else if name == "n"@ || name == "newton"@ || name == "newtons"@ {
        force_formula()
    } else if name == "j"@ || name == "joule"@ || name == "joules"@ {
        energy_formula()
    } else if name == "w"@ || name == "watt"@ || name == "watts"@ {
        power_formula()
    } else {
        no_dimensions()
    }
}

pub open spec fn no_dimensions() -> DimensionalFormula {
    DimensionalFormula {
        length: None,
        mass: None,
        time: None,
        current: None,
        temperature: None,
        amount: None,
        luminosity: None,
    }
}

pub open spec fn length_formula() -> DimensionalFormula {
    DimensionalFormula { length: Some(1i32), ..no_dimensions() }
}

pub open spec fn mass_formula() -> DimensionalFormula {
    DimensionalFormula { mass: Some(1i32), ..no_dimensions() }
}

pub open spec fn time_formula() -> DimensionalFormula {
    DimensionalFormula { time: Some(1i32), ..no_dimensions() }
}

pub open spec fn velocity_formula() -> DimensionalFormula {
    DimensionalFormula { length: Some(1i32), time: Some(-1i32), ..no_dimensions() }
}

pub open spec fn acceleration_formula() -> DimensionalFormula {
    DimensionalFormula { length: Some(1i32), time: Some(-2i32), ..no_dimensions() }
}

pub open spec fn force_formula() -> DimensionalFormula {
    DimensionalFormula { mass: Some(1i32), length: Some(1i32), time: Some(-2i32), ..no_dimensions() }
}

pub open spec fn energy_formula() -> DimensionalFormula {
    DimensionalFormula { mass: Some(1i32), length: Some(2i32), time: Some(-2i32), ..no_dimensions() }
}

pub open spec fn power_formula() -> DimensionalFormula {
    DimensionalFormula { mass: Some(1i32), length: Some(2i32), time: Some(-3i32), ..no_dimensions() }
}

fn merge(a: Option<i32>, b: Option<i32>, subtract: bool) -> (r: Option<i32>)
    requires
        can_merge(a, b, subtract),
    ensures
        r == nonzero_entry(power_of(a) + signed_power(b, subtract)),
{
    let base: i32 = match a {
        Some(p) => p,
        None => 0,
    };
    let sum: i32 = match b {
        Some(q) => if subtract {
            base - q
        } else {
            base + q
        },
        None => base,
    };
    if sum != 0 {
        Some(sum)
    } else {
        None
    }
}

fn raise(a: Option<i32>, exponent: i32) -> (r: Option<i32>)
    requires
        can_raise(a, exponent),
    ensures
        r == raised(a, exponent),
{
    match a {
        Some(p) => Some(p * exponent),
        None => None,
    }
}

fn symbol_text(d: BaseDimension) -> (r: &'static str)
    ensures
        r@ == symbol(d),
{
    match d {
        BaseDimension::Length => "m",
        BaseDimension::Mass => "kg",
        BaseDimension::Time => "s",
        BaseDimension::Current => "A",
        BaseDimension::Temperature => "K",
        BaseDimension::Amount => "mol",
        BaseDimension::Luminosity => "cd",
    }
}

/// Appends to `parts` the factor that `entry` adds on the chosen side of the fraction.
fn push_factor(parts: &mut Vec<String>, d: BaseDimension, entry: Option<i32>, positive: bool)
    ensures
        crate::model::dimension::names_of(final(parts)@) == crate::model::dimension::names_of(
            old(parts)@,
        ) + factor_of(d, entry, positive),
{
    let ghost before = crate::model::dimension::names_of(parts@);
    let p: i32 = match entry {
        Some(p) => p,
        None => 0,
    };
    if (positive && p > 0) || (!positive && p < 0) {
        let magnitude: u32 = if p > 0 {
            p as u32
        } else if p == i32::MIN {
            2147483648u32
        } else {
            (-p) as u32
        };
        let text = if magnitude == 1 {
            String::from_str(symbol_text(d))
        } else {
            let digits = decimal(magnitude);
            concat3(symbol_text(d), "^", digits.as_str())
        };
        parts.push(text);
        assert(crate::model::dimension::names_of(parts@) =~= before + factor_of(
            d,
            entry,
            positive,
        ));
    } else {
        assert(crate::model::dimension::names_of(parts@) =~= before + factor_of(
            d,
            entry,
            positive,
        ));
    }
}

impl DimensionalFormula {
    /// The entry of base dimension `d`.
    pub open spec fn entry(&self, d: BaseDimension) -> Option<i32> {
        match d {
            BaseDimension::Length => self.length,
            BaseDimension::Mass => self.mass,
            BaseDimension::Time => self.time,
            BaseDimension::Current => self.current,
            BaseDimension::Temperature => self.temperature,
            BaseDimension::Amount => self.amount,
            BaseDimension::Luminosity => self.luminosity,
        }
    }

    /// The formula as a map from the base dimensions that have an entry to their powers.
    pub open spec fn view(&self) -> Map<BaseDimension, int> {
        Map::new(|d: BaseDimension| self.entry(d) is Some, |d: BaseDimension| power_of(self.entry(d)))
    }

    /// Whether every entry is zero.
    pub open spec fn all_zero(&self) -> bool {
        forall|d: BaseDimension| power_of(#[trigger] self.entry(d)) == 0
    }

    /// The factors of the numerator (`positive`) or of the denominator, in the
    /// order length, mass, time, current, temperature, amount, luminosity.
    pub open spec fn factors(&self, positive: bool) -> Seq<Seq<char>> {
        factor_of(BaseDimension::Length, self.length, positive) + factor_of(
            BaseDimension::Mass,
            self.mass,
            positive,
        ) + factor_of(BaseDimension::Time, self.time, positive) + factor_of(
            BaseDimension::Current,
            self.current,
            positive,
        ) + factor_of(BaseDimension::Temperature, self.temperature, positive) + factor_of(
            BaseDimension::Amount,
            self.amount,
            positive,
        ) + factor_of(BaseDimension::Luminosity, self.luminosity, positive)
    }

    /// The formula written as a fraction of unit symbols: `1` when dimensionless,
    /// else the numerator factors joined by `*` (or `1` when there are none),
    /// followed, when there are denominator factors, by `/` and those joined by `*`.
    pub open spec fn text(&self) -> Seq<char> {
        if self.all_zero() {
            "1"@
        } else {
            let numerator = if self.factors(true).len() == 0 {
                "1"@
            } else {
                joined(self.factors(true), "*"@)
            };
            if self.factors(false).len() == 0 {
                numerator
            } else {
                numerator + "/"@ + joined(self.factors(false), "*"@)
            }
        }
    }

    /// Whether `other` can be multiplied onto `self`, or divided out of it when
    /// `subtract` is set, without a power leaving the range of its type.
    pub open spec fn can_combine(&self, other: &DimensionalFormula, subtract: bool) -> bool {
        forall|d: BaseDimension| can_merge(#[trigger] self.entry(d), other.entry(d), subtract)
    }

    /// No units.
    pub fn dimensionless() -> (r: DimensionalFormula)
        ensures
            r == no_dimensions(),
    {
        DimensionalFormula {
            length: None,
            mass: None,
            time: None,
            current: None,
            temperature: None,
            amount: None,
            luminosity: None,
        }
    }

    /// One base dimension at the given power; dimensionless when the power is zero.
    pub fn from_base(dim: BaseDimension, power: i32) -> (r: DimensionalFormula)
        ensures
            forall|d: BaseDimension|
                #[trigger] r.entry(d) == if d == dim && power != 0 {
                    Some(power)
                } else {
                    None
                },
    {
        let mut r = Self::dimensionless();
        if power != 0 {
            match dim {
                BaseDimension::Length => r.length = Some(power),
                BaseDimension::Mass => r.mass = Some(power),
                BaseDimension::Time => r.time = Some(power),
                BaseDimension::Current => r.current = Some(power),
                BaseDimension::Temperature => r.temperature = Some(power),
                BaseDimension::Amount => r.amount = Some(power),
                BaseDimension::Luminosity => r.luminosity = Some(power),
            }
        }
        r
    }

    pub fn length() -> (r: DimensionalFormula)
        ensures
            r == length_formula(),
    {
        let r = Self::from_base(BaseDimension::Length, 1);
        proof {
            lemma_same_entries(r, length_formula());
        }
        r
    }

    pub fn mass() -> (r: DimensionalFormula)
        ensures
            r == mass_formula(),
    {
        let r = Self::from_base(BaseDimension::Mass, 1);
        proof {
            lemma_same_entries(r, mass_formula());
        }
        r
    }

    pub fn time() -> (r: DimensionalFormula)
        ensures
            r == time_formula(),
    {
        let r = Self::from_base(BaseDimension::Time, 1);
        proof {
            lemma_same_entries(r, time_formula());
        }
        r
    }

    /// m/s
    pub fn velocity() -> (r: DimensionalFormula)
        ensures
            r == velocity_formula(),
    {
        let mut r = Self::dimensionless();
        r.length = Some(1);
        r.time = Some(-1);
        r
    }

    /// m/s^2
    pub fn acceleration() -> (r: DimensionalFormula)
        ensures
            r == acceleration_formula(),
    {
        let mut r = Self::dimensionless();
        r.length = Some(1);
        r.time = Some(-2);
        r
    }

    /// newton: kg*m/s^2
    pub fn force() -> (r: DimensionalFormula)
        ensures
            r == force_formula(),
    {
        let mut r = Self::dimensionless();
        r.mass = Some(1);
        r.length = Some(1);
        r.time = Some(-2);
        r
    }

    /// joule: kg*m^2/s^2
    pub fn energy() -> (r: DimensionalFormula)
        ensures
            r == energy_formula(),
    {
        let mut r = Self::dimensionless();
        r.mass = Some(1);
        r.length = Some(2);
        r.time = Some(-2);
        r
    }

    /// watt: kg*m^2/s^3
    pub fn power() -> (r: DimensionalFormula)
        ensures
            r == power_formula(),
    {
        let mut r = Self::dimensionless();
        r.mass = Some(1);
        r.length = Some(2);
        r.time = Some(-3);
        r
    }

    /// Whether the formula has no entry other than zero.
    pub fn is_dimensionless(&self) -> (r: bool)
        ensures
            r == self.all_zero(),
    {
        let r = is_zero(self.length) && is_zero(self.mass) && is_zero(self.time) && is_zero(
            self.current,
        ) && is_zero(self.temperature) && is_zero(self.amount) && is_zero(self.luminosity);
        proof {
            if r {
                assert forall|d: BaseDimension| power_of(#[trigger] self.entry(d)) == 0 by {}
            } else {
                assert(power_of(self.entry(BaseDimension::Length)) != 0 || power_of(
                    self.entry(BaseDimension::Mass),
                ) != 0 || power_of(self.entry(BaseDimension::Time)) != 0 || power_of(
                    self.entry(BaseDimension::Current),
                ) != 0 || power_of(self.entry(BaseDimension::Temperature)) != 0 || power_of(
                    self.entry(BaseDimension::Amount),
                ) != 0 || power_of(self.entry(BaseDimension::Luminosity)) != 0);
            }
        }
        r
    }

    /// The product: powers add, and no zero entry is kept.
    pub fn multiply(&self, other: &DimensionalFormula) -> (r: DimensionalFormula)
        requires
            self.can_combine(other, false),
        ensures
            forall|d: BaseDimension|
                #[trigger] r.entry(d) == nonzero_entry(
                    power_of(self.entry(d)) + power_of(other.entry(d)),
                ),
    {
        proof {
            self.combine_by_axis(other, false);
        }
        DimensionalFormula {
            length: merge(self.length, other.length, false),
            mass: merge(self.mass, other.mass, false),
            time: merge(self.time, other.time, false),
            current: merge(self.current, other.current, false),
            temperature: merge(self.temperature, other.temperature, false),
            amount: merge(self.amount, other.amount, false),
            luminosity: merge(self.luminosity, other.luminosity, false),
        }
    }

    /// The quotient: powers subtract, and no zero entry is kept.
    pub fn divide(&self, other: &DimensionalFormula) -> (r: DimensionalFormula)
        requires
            self.can_combine(other, true),
        ensures
            forall|d: BaseDimension|
                #[trigger] r.entry(d) == nonzero_entry(
                    power_of(self.entry(d)) - power_of(other.entry(d)),
                ),
    {
        proof {
            self.combine_by_axis(other, true);
        }
        DimensionalFormula {
            length: merge(self.length, other.length, true),
            mass: merge(self.mass, other.mass, true),
            time: merge(self.time, other.time, true),
            current: merge(self.current, other.current, true),
            temperature: merge(self.temperature, other.temperature, true),
            amount: merge(self.amount, other.amount, true),
            luminosity: merge(self.luminosity, other.luminosity, true),
        }
    }

    proof fn combine_by_axis(&self, other: &DimensionalFormula, subtract: bool)
        requires
            self.can_combine(other, subtract),
        ensures
            can_merge(self.length, other.length, subtract),
            can_merge(self.mass, other.mass, subtract),
            can_merge(self.time, other.time, subtract),
            can_merge(self.current, other.current, subtract),
            can_merge(self.temperature, other.temperature, subtract),
            can_merge(self.amount, other.amount, subtract),
            can_merge(self.luminosity, other.luminosity, subtract),
    {
        assert(can_merge(self.entry(BaseDimension::Length), other.entry(BaseDimension::Length), subtract));
        assert(can_merge(self.entry(BaseDimension::Mass), other.entry(BaseDimension::Mass), subtract));
        assert(can_merge(self.entry(BaseDimension::Time), other.entry(BaseDimension::Time), subtract));
        assert(can_merge(
            self.entry(BaseDimension::Current),
            other.entry(BaseDimension::Current),
            subtract,
        ));
        assert(can_merge(
            self.entry(BaseDimension::Temperature),
            other.entry(BaseDimension::Temperature),
            subtract,
        ));
        assert(can_merge(self.entry(BaseDimension::Amount), other.entry(BaseDimension::Amount), subtract));
        assert(can_merge(
            self.entry(BaseDimension::Luminosity),
            other.entry(BaseDimension::Luminosity),
            subtract,
        ));
    }

    /// Every entry multiplied by `exponent`; entries that become zero stay.
    pub fn raise_to_power(&self, exponent: i32) -> (r: DimensionalFormula)
        requires
            forall|d: BaseDimension| can_raise(#[trigger] self.entry(d), exponent),
        ensures
            forall|d: BaseDimension| #[trigger] r.entry(d) == raised(self.entry(d), exponent),
    {
        proof {
            assert(can_raise(self.entry(BaseDimension::Length), exponent));
            assert(can_raise(self.entry(BaseDimension::Mass), exponent));
            assert(can_raise(self.entry(BaseDimension::Time), exponent));
            assert(can_raise(self.entry(BaseDimension::Current), exponent));
            assert(can_raise(self.entry(BaseDimension::Temperature), exponent));
            assert(can_raise(self.entry(BaseDimension::Amount), exponent));
            assert(can_raise(self.entry(BaseDimension::Luminosity), exponent));
        }
        DimensionalFormula {
            length: raise(self.length, exponent),
            mass: raise(self.mass, exponent),
            time: raise(self.time, exponent),
            current: raise(self.current, exponent),
            temperature: raise(self.temperature, exponent),
            amount: raise(self.amount, exponent),
            luminosity: raise(self.luminosity, exponent),
        }
    }

    /// Whether two quantities of these units can be added: the entries are the same.
    pub fn is_compatible(&self, other: &DimensionalFormula) -> (r: bool)
        ensures
            r == (*self == *other),
            r == (self@ == other@),
    {
        let r = same_entry(self.length, other.length) && same_entry(self.mass, other.mass)
            && same_entry(self.time, other.time) && same_entry(self.current, other.current)
            && same_entry(self.temperature, other.temperature) && same_entry(
            self.amount,
            other.amount,
        ) && same_entry(self.luminosity, other.luminosity);
        proof {
            if r {
                assert(self@ =~= other@);
            } else {
                lemma_view_tells_entries(*self, *other);
            }
        }
        r
    }

    /// The formula of a unit name that is already trimmed and in lower case.
    pub fn from_normalized(name: &str) -> (r: DimensionalFormula)
        ensures
            r == named_formula(name@),
    {
        if is_text(name, "m") || is_text(name, "meter") || is_text(name, "meters") {
            Self::length()
        } else if is_text(name, "kg") || is_text(name, "kilogram") || is_text(name, "kilograms") {
            Self::mass()
        } else if is_text(name, "s") || is_text(name, "second") || is_text(name, "seconds") {
            Self::time()
        } else if is_text(name, "m/s") || is_text(name, "meter/second") {
            Self::velocity()
        } else if is_text(name, "m/s^2") || is_text(name, "m/s2") {
            Self::acceleration()
        } else if is_text(name, "n") || is_text(name, "newton") || is_text(name, "newtons") {
            Self::force()
        } else if is_text(name, "j") || is_text(name, "joule") || is_text(name, "joules") {
            Self::energy()
        } else if is_text(name, "w") || is_text(name, "watt") || is_text(name, "watts") {
            Self::power()
        } else {
            Self::dimensionless()
        }
    }

    /// Reads a unit name such as `m/s` or `Newton`, ignoring case and surrounding
    /// white space. A name that is not known reads as dimensionless.
    pub fn parse(s: &str) -> (r: Result<DimensionalFormula, String>)
        ensures
            r is Ok,
            r.unwrap() == named_formula(lowercased(trimmed(s@))),
    {
        let name = lowercase(trim(s));
        Ok(Self::from_normalized(name.as_str()))
    }

    /// The formula written as a fraction of unit symbols, such as `kg*m/s^2`.
    pub fn to_string(&self) -> (r: String)
        ensures
            r@ == self.text(),
    {
        if self.is_dimensionless() {
            return String::from_str("1");
        }
        let mut parts: Vec<String> = Vec::new();
        self.push_factors(&mut parts, true);
        let numerator = if parts.len() == 0 {
            String::from_str("1")
        } else {
            join(&parts, "*")
        };
        let mut below: Vec<String> = Vec::new();
        self.push_factors(&mut below, false);
        if below.len() == 0 {
            numerator
        } else {
            let denominator = join(&below, "*");
            concat3(numerator.as_str(), "/", denominator.as_str())
        }
    }

    fn push_factors(&self, parts: &mut Vec<String>, positive: bool)
        requires
            old(parts)@.len() == 0,
        ensures
            crate::model::dimension::names_of(final(parts)@) == self.factors(positive),
    {
        assert(crate::model::dimension::names_of(parts@) =~= Seq::<Seq<char>>::empty());
        push_factor(parts, BaseDimension::Length, self.length, positive);
        push_factor(parts, BaseDimension::Mass, self.mass, positive);
        push_factor(parts, BaseDimension::Time, self.time, positive);
        push_factor(parts, BaseDimension::Current, self.current, positive);
        push_factor(parts, BaseDimension::Temperature, self.temperature, positive);
        push_factor(parts, BaseDimension::Amount, self.amount, positive);
        push_factor(parts, BaseDimension::Luminosity, self.luminosity, positive);
        assert(crate::model::dimension::names_of(parts@) =~= self.factors(positive));
    }
}

fn is_zero(entry: Option<i32>) -> (r: bool)
    ensures
        r == (power_of(entry) == 0),
{
    match entry {
        Some(p) => p == 0,
        None => true,
    }
}

fn same_entry(a: Option<i32>, b: Option<i32>) -> (r: bool)
    ensures
        r == (a == b),
{
    match (a, b) {
        (Some(p), Some(q)) => p == q,
        (None, None) => true,
        _ => false,
    }
}

/// Formulas that agree on the entry of every base dimension are the same formula.
pub proof fn lemma_same_entries(a: DimensionalFormula, b: DimensionalFormula)
    requires
        forall|d: BaseDimension| #[trigger] a.entry(d) == b.entry(d),
    ensures
        a == b,
{
    assert(a.entry(BaseDimension::Length) == b.entry(BaseDimension::Length));
    assert(a.entry(BaseDimension::Mass) == b.entry(BaseDimension::Mass));
    assert(a.entry(BaseDimension::Time) == b.entry(BaseDimension::Time));
    assert(a.entry(BaseDimension::Current) == b.entry(BaseDimension::Current));
    assert(a.entry(BaseDimension::Temperature) == b.entry(BaseDimension::Temperature));
    assert(a.entry(BaseDimension::Amount) == b.entry(BaseDimension::Amount));
    assert(a.entry(BaseDimension::Luminosity) == b.entry(BaseDimension::Luminosity));
}

/// Formulas with the same map of powers have the same entries.
pub proof fn lemma_view_tells_entries(a: DimensionalFormula, b: DimensionalFormula)
    ensures
        a@ == b@ ==> a == b,
{
    if a@ == b@ {
        assert forall|d: BaseDimension| a.entry(d) == b.entry(d) by {
            assert(a@.dom().contains(d) == b@.dom().contains(d));
            if a.entry(d) is Some {
                assert(a@[d] == b@[d]);
            }
        }
        lemma_same_entries(a, b);
    }
}

/// The map that a list of registrations stands for: a later registration of a
/// name replaces an earlier one.
pub open spec fn units_map(entries: Seq<(String, DimensionalFormula)>) -> Map<
    Seq<char>,
    DimensionalFormula,
>
    decreases entries.len(),
{
    if entries.len() == 0 {
        Map::empty()
    } else {
        units_map(entries.drop_last()).insert(entries.last().0@, entries.last().1)
    }
}

/// The units registered for `name`, or no units when there are none.
pub open spec fn units_or_none(units: Map<Seq<char>, DimensionalFormula>, name: Seq<char>)
    -> DimensionalFormula {
    if units.contains_key(name) {
        units[name]
    } else {
        no_dimensions()
    }
}

/// The complaint about adding quantities of different units.
pub open spec fn mismatch_text(
    left: Seq<char>,
    left_units: DimensionalFormula,
    right: Seq<char>,
    right_units: DimensionalFormula,
) -> Seq<char> {
    "Unit mismatch in addition: "@ + left + " ("@ + left_units.text() + ") + "@ + right + " ("@
        + right_units.text() + ")"@
}

/// Keeps the units of named variables and checks operations on them.
#[derive(Debug, Clone)]
pub struct UnitChecker {
    variable_units: Vec<(String, DimensionalFormula)>,
}

impl UnitChecker {
    /// The units registered so far, by variable name.
    pub closed spec fn view(&self) -> Map<Seq<char>, DimensionalFormula> {
        units_map(self.variable_units@)
    }

    pub fn new() -> (r: UnitChecker)
        ensures
            r@ == Map::<Seq<char>, DimensionalFormula>::empty(),
    {
        UnitChecker { variable_units: Vec::new() }
    }

    /// Registers the units of a variable, in place of any registered before.
    pub fn register_variable(&mut self, name: String, units: DimensionalFormula)
        ensures
            final(self)@ == old(self)@.insert(name@, units),
    {
        let ghost before = self.variable_units@;
        self.variable_units.push((name, units));
        assert(self.variable_units@.drop_last() =~= before);
    }

    /// The units registered for `name`.
    pub fn get_units(&self, name: &str) -> (r: Option<&DimensionalFormula>)
        ensures
            match r {
                Some(u) => self@.contains_key(name@) && self@[name@] == *u,
                None => !self@.contains_key(name@),
            },
    {
        let wanted = String::from_str(name);
        let mut k: usize = self.variable_units.len();
        assert(self.variable_units@.take(k as int) =~= self.variable_units@);
        while k > 0
            invariant
                k <= self.variable_units@.len(),
                wanted@ == name@,
                self@.contains_key(name@) == units_map(
                    self.variable_units@.take(k as int),
                ).contains_key(name@),
                self@.contains_key(name@) ==> self@[name@] == units_map(
                    self.variable_units@.take(k as int),
                )[name@],
            decreases k,
        {
            let i: usize = k - 1;
            assert(self.variable_units@.take(k as int).drop_last() =~= self.variable_units@.take(
                i as int,
            ));
            if self.variable_units[i].0 == wanted {
                return Some(&self.variable_units[i].1);
            }
            k = i;
        }
        None
    }

    /// Whether `left` and `right` may be added: both must have units, and the same.
    pub fn check_add(&self, left: &str, right: &str) -> (r: Result<(), String>)
        ensures
            match r {
                Ok(_) => self@.contains_key(left@) && self@.contains_key(right@) && self@[left@]
                    == self@[right@],
                Err(msg) => if !self@.contains_key(left@) {
                    msg@ == "Units for '"@ + left@ + "' not found"@
                } else if !self@.contains_key(right@) {
                    msg@ == "Units for '"@ + right@ + "' not found"@
                } else {
                    self@[left@] != self@[right@] && msg@ == mismatch_text(
                        left@,
                        self@[left@],
                        right@,
                        self@[right@],
                    )
                },
            },
    {
        let left_units = match self.get_units(left) {
            Some(u) => u,
            None => {
                return Err(concat3("Units for '", left, "' not found"));
            },
        };
        let right_units = match self.get_units(right) {
            Some(u) => u,
            None => {
                return Err(concat3("Units for '", right, "' not found"));
            },
        };
        if !left_units.is_compatible(right_units) {
            let left_text = left_units.to_string();
            let right_text = right_units.to_string();
            let mut msg = String::from_str("Unit mismatch in addition: ");
            msg.append(left);
            msg.append(" (");
            msg.append(left_text.as_str());
            msg.append(") + ");
            msg.append(right);
            msg.append(" (");
            msg.append(right_text.as_str());
            msg.append(")");
            return Err(msg);
        }
        Ok(())
    }

    fn units_of(&self, name: &str) -> (r: DimensionalFormula)
        ensures
            r == units_or_none(self@, name@),
    {
        match self.get_units(name) {
            Some(u) => *u,
            None => DimensionalFormula::dimensionless(),
        }
    }

    /// The units of the product of `left` and `right`; a variable without
    /// registered units counts as dimensionless.
    pub fn check_multiply(&self, left: &str, right: &str) -> (r: DimensionalFormula)
        requires
            units_or_none(self@, left@).can_combine(&units_or_none(self@, right@), false),
        ensures
            forall|d: BaseDimension|
                #[trigger] r.entry(d) == nonzero_entry(
                    power_of(units_or_none(self@, left@).entry(d)) + power_of(
                        units_or_none(self@, right@).entry(d),
                    ),
                ),
    {
        let left_units = self.units_of(left);
        let right_units = self.units_of(right);
        left_units.multiply(&right_units)
    }

    /// The units of the quotient of `left` by `right`; a variable without
    /// registered units counts as dimensionless.
    pub fn check_divide(&self, left: &str, right: &str) -> (r: DimensionalFormula)
        requires
            units_or_none(self@, left@).can_combine(&units_or_none(self@, right@), true),
        ensures
            forall|d: BaseDimension|
                #[trigger] r.entry(d) == nonzero_entry(
                    power_of(units_or_none(self@, left@).entry(d)) - power_of(
                        units_or_none(self@, right@).entry(d),
                    ),
                ),
    {
        let left_units = self.units_of(left);
        let right_units = self.units_of(right);
        left_units.divide(&right_units)
    }
}

} // verus!
