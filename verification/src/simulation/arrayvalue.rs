//! Values that are one number or an array of numbers in row-major order.

use vstd::prelude::*;
use vstd::string::*;
use crate::model::dimension::{
    flat_offset, lemma_flat_offset_nonnegative, lemma_stride_grows, lemma_stride_nonnegative,
    stride_between, DimensionManager,
};
use crate::model::named::{find_named, holds, labels, position_of, Named};
use crate::model::stock::Stock;
use crate::model::{Dimension, Model};
use crate::number::Number;
use crate::text::{concat3, decimal_of, decimal_text};

verus! {

/// One number, or an array of numbers with the sizes of its axes.
#[derive(Debug, Clone)]
pub enum ArrayValue {
    Scalar(Number),
    /// The numbers in row-major order: the last axis runs fastest.
    Array { shape: Vec<usize>, data: Vec<Number> },
}

/// The number of places of an array of the given shape.
pub open spec fn size_of(shape: Seq<usize>) -> int {
    stride_between(shape, 0, shape.len() as int)
}

/// Whether each coordinate lies on its axis.
pub open spec fn on_axes(indices: Seq<usize>, shape: Seq<usize>) -> bool {
    indices.len() == shape.len() && forall|i: int|
        0 <= i < indices.len() ==> #[trigger] indices[i] < shape[i]
}

/// The first coordinate from `i` on that lies beyond its axis; the number of
/// coordinates where there is none.
pub open spec fn first_beyond(indices: Seq<usize>, shape: Seq<usize>, i: int) -> int
    decreases indices.len() - i,
{
    if 0 <= i < indices.len() && i < shape.len() && indices[i] < shape[i] {
        first_beyond(indices, shape, i + 1)
    } else {
        i
    }
}

/// The offset of coordinates that lie on the axes is a place of the array.
pub proof fn lemma_offset_within(indices: Seq<usize>, shape: Seq<usize>, from: int)
    requires
        on_axes(indices, shape),
        0 <= from <= shape.len(),
    ensures
        0 <= flat_offset(indices, shape, from) < stride_between(shape, from, shape.len() as int)
            || (from == shape.len() && flat_offset(indices, shape, from) == 0),
        from < shape.len() ==> 0 <= flat_offset(indices, shape, from) <= stride_between(
            shape,
            from,
            shape.len() as int,
        ) - 1,
    decreases shape.len() - from,
{
    let n = shape.len() as int;
    if from < n {
        lemma_offset_within(indices, shape, from + 1);
        lemma_stride_nonnegative(shape, from + 1, n);
        lemma_flat_offset_nonnegative(indices, shape, from + 1);
        let s = stride_between(shape, from + 1, n);
        let rest = flat_offset(indices, shape, from + 1);
        assert(rest <= s - 1 || (from + 1 == n && rest == 0 && s == 1));
        assert(indices[from] * s + rest <= shape[from] * s - 1) by (nonlinear_arith)
            requires
                0 <= indices[from] < shape[from],
                0 <= rest <= s - 1,
                s >= 0,
        ;
        assert(indices[from] * s >= 0) by (nonlinear_arith)
            requires
                indices[from] >= 0,
                s >= 0,
        ;
    }
}

/// The sizes between brackets, with a comma and a space between neighbours.
pub open spec fn sizes_text(shape: Seq<usize>, count: int) -> Seq<char>
    decreases count,
{
    if count <= 0 {
        Seq::empty()
    } else if count == 1 {
        decimal_text(shape[0] as nat)
    } else {
        sizes_text(shape, count - 1) + ", "@ + decimal_text(shape[count - 1] as nat)
    }
}

/// What is said of a coordinate beyond its axis.
pub open spec fn beyond_text(index: usize, axis: int, size: usize) -> Seq<char> {
    "Index "@ + decimal_text(index as nat) + " out of bounds for dimension "@ + decimal_text(
        axis as nat,
    ) + " (size "@ + decimal_text(size as nat) + ")"@
}

/// What is said of a wrong number of coordinates.
pub open spec fn count_text(expected: nat, got: nat) -> Seq<char> {
    "Expected "@ + decimal_text(expected) + " indices, got "@ + decimal_text(got)
}

/// What is said of data that does not fill the shape.
pub open spec fn mismatch_text(got: nat, shape: Seq<usize>, expected: nat) -> Seq<char> {
    "Data size "@ + decimal_text(got) + " does not match shape ["@ + sizes_text(
        shape,
        shape.len() as int,
    ) + "] (expected "@ + decimal_text(expected) + ")"@
}

fn write_sizes(shape: &Vec<usize>) -> (r: String)
    ensures
        r@ == sizes_text(shape@, shape@.len() as int),
{
    let mut r = String::new();
    let mut i: usize = 0;
    while i < shape.len()
        invariant
            i <= shape@.len(),
            r@ == sizes_text(shape@, i as int),
        decreases shape@.len() - i,
    {
        let ghost before = r@;
        if i > 0 {
            r.append(", ");
        }
        r.append(decimal_of(shape[i]).as_str());
        proof {
            if i == 0 {
                assert(r@ =~= decimal_text(shape@[0] as nat));
            }
        }
        i += 1;
    }
    r
}

/// The number of places of an array of the given shape, where it is a number
/// of the machine.
fn product(shape: &Vec<usize>) -> (r: usize)
    requires
        size_of(shape@) <= usize::MAX,
        forall|j: int| 0 <= j < shape@.len() ==> shape@[j] != 0,
    ensures
        r == size_of(shape@),
{
    let n = shape.len();
    let mut r: usize = 1;
    let mut k: usize = n;
    while k > 0
        invariant
            k <= n,
            n == shape@.len(),
            r == stride_between(shape@, k as int, n as int),
            size_of(shape@) <= usize::MAX,
            forall|j: int| 0 <= j < shape@.len() ==> shape@[j] != 0,
        decreases k,
    {
        let i: usize = k - 1;
        proof {
            lemma_stride_grows(shape@, 0, i as int, n as int);
            assert(r * shape@[i as int] == stride_between(shape@, i as int, n as int))
                by (nonlinear_arith)
                requires
                    r == stride_between(shape@, k as int, n as int),
                    stride_between(shape@, i as int, n as int) == shape@[i as int]
                        * stride_between(shape@, k as int, n as int),
            ;
        }
        r = r * shape[i];
        k = i;
    }
    r
}

/// Whether one of the sizes is zero.
fn has_empty_axis(shape: &Vec<usize>) -> (r: bool)
    ensures
        r == exists|j: int| 0 <= j < shape@.len() && shape@[j] == 0,
{
    let mut i: usize = 0;
    while i < shape.len()
        invariant
            i <= shape@.len(),
            forall|j: int| 0 <= j < i ==> shape@[j] != 0,
        decreases shape@.len() - i,
    {
        if shape[i] == 0 {
            return true;
        }
        i += 1;
    }
    false
}

/// An array with an empty axis has no places.
pub proof fn lemma_empty_axis(shape: Seq<usize>, from: int, j: int)
    requires
        0 <= from <= j < shape.len(),
        shape[j] == 0,
    ensures
        stride_between(shape, from, shape.len() as int) == 0,
    decreases j - from,
{
    if from < j {
        lemma_empty_axis(shape, from + 1, j);
    }
    assert(shape[from] * stride_between(shape, from + 1, shape.len() as int) == 0)
        by (nonlinear_arith)
        requires
            shape[from] == 0 || stride_between(shape, from + 1, shape.len() as int) == 0,
    ;
}

fn size(shape: &Vec<usize>) -> (r: usize)
    requires
        size_of(shape@) <= usize::MAX,
    ensures
        r == size_of(shape@),
{
    if has_empty_axis(shape) {
        proof {
            let j = choose|j: int| 0 <= j < shape@.len() && shape@[j] == 0;
            lemma_empty_axis(shape@, 0, j);
        }
        0
    } else {
        product(shape)
    }
}

impl ArrayValue {
    /// Whether an array has one number for each of its places.
    pub open spec fn well_formed(&self) -> bool {
        match self {
            ArrayValue::Scalar(_) => true,
            ArrayValue::Array { shape, data } => data@.len() == size_of(shape@),
        }
    }

    /// The number at the coordinates, where there is one.
    pub open spec fn at(&self, indices: Seq<usize>) -> Option<Number> {
        match self {
            ArrayValue::Scalar(v) => if indices.len() == 0 {
                Some(*v)
            } else {
                None
            },
            ArrayValue::Array { shape, data } => if on_axes(indices, shape@) {
                Some(data@[flat_offset(indices, shape@, 0)])
            } else {
                None
            },
        }
    }

    /// What is said of coordinates at which there is no number.
    pub open spec fn refusal(&self, indices: Seq<usize>) -> Seq<char> {
        match self {
            ArrayValue::Scalar(_) => "Cannot index scalar value"@,
            ArrayValue::Array { shape, data } => if indices.len() != shape@.len() {
                count_text(shape@.len(), indices.len())
            } else {
                let i = first_beyond(indices, shape@, 0);
                beyond_text(indices[i], i, shape@[i])
            },
        }
    }

    pub fn scalar(value: Number) -> (r: ArrayValue)
        ensures
            r == ArrayValue::Scalar(value),
    {
        ArrayValue::Scalar(value)
    }

    /// An array of the given shape with zero at every place.
    pub fn zeros(shape: Vec<usize>) -> (r: ArrayValue)
        requires
            size_of(shape@) <= usize::MAX,
        ensures
            r.well_formed(),
            r matches ArrayValue::Array { shape: s, data } && s == shape && forall|i: int|
                0 <= i < data@.len() ==> data@[i].bits == 0,
    {
        let n = size(&shape);
        let mut data: Vec<Number> = Vec::new();
        let mut i: usize = 0;
        while i < n
            invariant
                i <= n,
                data@.len() == i,
                forall|k: int| 0 <= k < i ==> data@[k].bits == 0,
            decreases n - i,
        {
            data.push(Number::zero());
            i += 1;
        }
        ArrayValue::Array { shape, data }
    }

    /// An array of the given shape with the given numbers, which must be one
    /// for each place.
    pub fn from_vec(shape: Vec<usize>, data: Vec<Number>) -> (r: Result<ArrayValue, String>)
        requires
            size_of(shape@) <= usize::MAX,
        ensures
            match r {
                Ok(v) => data@.len() == size_of(shape@) && v == (ArrayValue::Array { shape, data })
                    && v.well_formed(),
                Err(msg) => data@.len() != size_of(shape@) && msg@ == mismatch_text(
                    data@.len(),
                    shape@,
                    size_of(shape@) as nat,
                ),
            },
    {
        let expected = size(&shape);
        if data.len() != expected {
            let mut msg = String::from_str("Data size ");
            msg.append(decimal_of(data.len()).as_str());
            msg.append(" does not match shape [");
            msg.append(write_sizes(&shape).as_str());
            msg.append("] (expected ");
            msg.append(decimal_of(expected).as_str());
            msg.append(")");
            return Err(msg);
        }
        Ok(ArrayValue::Array { shape, data })
    }

    /// The number of a scalar.
    pub fn as_scalar(&self) -> (r: Result<Number, String>)
        ensures
            match r {
                Ok(v) => *self == ArrayValue::Scalar(v),
                Err(msg) => self is Array && msg@ == "Cannot convert array to scalar"@,
            },
    {
        match self {
            ArrayValue::Scalar(v) => Ok(*v),
            ArrayValue::Array { .. } => Err(String::from_str("Cannot convert array to scalar")),
        }
    }

    /// The place of the coordinates in the data, or why there is none.
    fn place(shape: &Vec<usize>, indices: &[usize], places: usize) -> (r: Result<usize, String>)
        requires
            places == size_of(shape@),
        ensures
            match r {
                Ok(p) => on_axes(indices@, shape@) && p == flat_offset(indices@, shape@, 0) && p
                    < places,
                Err(msg) => !on_axes(indices@, shape@) && msg@ == if indices@.len()
                    != shape@.len() {
                    count_text(shape@.len(), indices@.len())
                } else {
                    beyond_text(
                        indices@[first_beyond(indices@, shape@, 0)],
                        first_beyond(indices@, shape@, 0),
                        shape@[first_beyond(indices@, shape@, 0)],
                    )
                },
            },
    {
        if indices.len() != shape.len() {
            let mut msg = String::from_str("Expected ");
            msg.append(decimal_of(shape.len()).as_str());
            msg.append(" indices, got ");
            msg.append(decimal_of(indices.len()).as_str());
            return Err(msg);
        }
        let mut i: usize = 0;
        while i < indices.len()
            invariant
                i <= indices@.len(),
                indices@.len() == shape@.len(),
                first_beyond(indices@, shape@, 0) == first_beyond(indices@, shape@, i as int),
                forall|k: int| 0 <= k < i ==> #[trigger] indices@[k] < shape@[k],
            decreases indices@.len() - i,
        {
            if indices[i] >= shape[i] {
                let mut msg = String::from_str("Index ");
                msg.append(decimal_of(indices[i]).as_str());
                msg.append(" out of bounds for dimension ");
                msg.append(decimal_of(i).as_str());
                msg.append(" (size ");
                msg.append(decimal_of(shape[i]).as_str());
                msg.append(")");
                return Err(msg);
            }
            i += 1;
        }
        proof {
            let n = shape@.len() as int;
            lemma_offset_within(indices@, shape@, 0);
            assert forall|j: int| 0 <= j < n implies shape@[j] != 0 by {
                assert(indices@[j] < shape@[j]);
            }
            assert forall|k: int| 1 <= k <= n implies #[trigger] stride_between(shape@, k, n)
                <= usize::MAX by {
                lemma_stride_grows(shape@, 0, k, n);
            }
            if n == 0 {
                assert(stride_between(shape@, 0, 0) == 1);
            }
        }
        let manager = DimensionManager::new();
        Ok(manager.indices_to_flat(indices, shape.as_slice()))
    }

    /// The number at the coordinates. A scalar has its number at no coordinates.
    pub fn get(&self, indices: &[usize]) -> (r: Result<Number, String>)
        requires
            self.well_formed(),
        ensures
            match r {
                Ok(v) => self.at(indices@) == Some(v),
                Err(msg) => self.at(indices@) is None && msg@ == self.refusal(indices@),
            },
    {
        match self {
            ArrayValue::Scalar(v) => {
                if indices.len() == 0 {
                    Ok(*v)
                } else {
                    Err(String::from_str("Cannot index scalar value"))
                }
            },
            ArrayValue::Array { shape, data } => {
                match Self::place(shape, indices, data.len()) {
                    Ok(p) => Ok(data[p]),
                    Err(msg) => Err(msg),
                }
            },
        }
    }

    /// Puts a number at the coordinates.
    pub fn set(&mut self, indices: &[usize], value: Number) -> (r: Result<(), String>)
        requires
            old(self).well_formed(),
        ensures
            final(self).well_formed(),
            match r {
                Ok(_) => old(self).at(indices@) is Some && match *old(self) {
                    ArrayValue::Scalar(_) => *final(self) == ArrayValue::Scalar(value),
                    ArrayValue::Array { shape, data } => (*final(self)) is Array && (*final(self))->shape == shape && (*final(self))->data@ == data@.update(
                        flat_offset(indices@, shape@, 0),
                        value,
                    ),
                },
                Err(msg) => old(self).at(indices@) is None && msg@ == old(self).refusal(indices@)
                    && *final(self) == *old(self),
            },
    {
        match self {
            ArrayValue::Scalar(v) => {
                if indices.len() == 0 {
                    *v = value;
                    Ok(())
                } else {
                    Err(String::from_str("Cannot index scalar value"))
                }
            },
            ArrayValue::Array { shape, data } => {
                match Self::place(shape, indices, data.len()) {
                    Ok(p) => {
                        data.set(p, value);
                        Ok(())
                    },
                    Err(msg) => Err(msg),
                }
            },
        }
    }

    /// The sizes of the axes; none for a scalar.
    pub fn shape(&self) -> (r: Vec<usize>)
        ensures
            match self {
                ArrayValue::Scalar(_) => r@.len() == 0,
                ArrayValue::Array { shape, data } => r@ == shape@,
            },
    {
        match self {
            ArrayValue::Scalar(_) => Vec::new(),
            ArrayValue::Array { shape, .. } => {
                let mut r: Vec<usize> = Vec::new();
                let mut i: usize = 0;
                while i < shape.len()
                    invariant
                        i <= shape@.len(),
                        r@ == shape@.subrange(0, i as int),
                    decreases shape@.len() - i,
                {
                    r.push(shape[i]);
                    assert(r@ =~= shape@.subrange(0, i + 1));
                    i += 1;
                }
                assert(shape@.subrange(0, shape@.len() as int) =~= shape@);
                r
            },
        }
    }

    pub fn is_scalar(&self) -> (r: bool)
        ensures
            r == (self is Scalar),
    {
        match self {
            ArrayValue::Scalar(_) => true,
            _ => false,
        }
    }

    pub fn is_array(&self) -> (r: bool)
        ensures
            r == (self is Array),
    {
        match self {
            ArrayValue::Array { .. } => true,
            _ => false,
        }
    }
}

/// A value under the name of its variable.
#[derive(Debug, Clone)]
pub struct NamedValue {
    pub name: String,
    pub value: ArrayValue,
}

impl Named for NamedValue {
    open spec fn label(&self) -> Seq<char> {
        self.name@
    }

    fn name_ref(&self) -> (r: &String) {
        &self.name
    }
}

/// The state of a run whose variables may be arrays.
#[derive(Debug, Clone)]
pub struct ArraySimulationState {
    pub time: Number,
    pub stocks: Vec<NamedValue>,
    pub flows: Vec<NamedValue>,
    pub auxiliaries: Vec<NamedValue>,
}

/// The sizes of the first `count` of the dimensions named, where each of them
/// is a dimension.
pub open spec fn shape_of(dimensions: Seq<Dimension>, names: Seq<String>, count: int) -> Option<
    Seq<usize>,
>
    decreases count,
{
    if count <= 0 {
        Some(Seq::empty())
    } else {
        match shape_of(dimensions, names, count - 1) {
            Some(shape) => if holds(dimensions, names[count - 1]@) {
                Some(
                    shape.push(
                        dimensions[position_of(
                            dimensions,
                            names[count - 1]@,
                        )].elements@.len() as usize,
                    ),
                )
            } else {
                None
            },
            None => None,
        }
    }
}

/// The shape of the array that a stock is: the sizes of its dimensions, where
/// it has dimensions, all of them are dimensions of the model and the array
/// is not too large for the machine.
pub open spec fn stock_shape(model: Model, stock: Stock) -> Option<Seq<usize>> {
    match stock.dimensions {
        Some(names) => match shape_of(model.dimension_list(), names@, names@.len() as int) {
            Some(shape) => if shape.len() > 0 && size_of(shape) <= usize::MAX {
                Some(shape)
            } else {
                None
            },
            None => None,
        },
        None => None,
    }
}

/// The value that the variable of a stock starts as: an array of its shape
/// with the initial value at every place, or the initial value alone.
pub open spec fn starts_as(model: Model, stock: Stock, initial: Number, value: ArrayValue) -> bool {
    match stock_shape(model, stock) {
        Some(shape) => value matches ArrayValue::Array { shape: s, data } && s@ == shape
            && data@.len() == size_of(shape) && forall|i: int|
            0 <= i < data@.len() ==> data@[i] == initial,
        None => value == ArrayValue::Scalar(initial),
    }
}

/// The number of places of a shape, where it is a number of the machine.
fn checked_size(shape: &Vec<usize>) -> (r: Option<usize>)
    ensures
        match r {
            Some(n) => n == size_of(shape@),
            None => size_of(shape@) > usize::MAX,
        },
{
    if has_empty_axis(shape) {
        proof {
            let j = choose|j: int| 0 <= j < shape@.len() && shape@[j] == 0;
            lemma_empty_axis(shape@, 0, j);
        }
        return Some(0);
    }
    let n = shape.len();
    let mut r: usize = 1;
    let mut k: usize = n;
    while k > 0
        invariant
            k <= n,
            n == shape@.len(),
            r == stride_between(shape@, k as int, n as int),
            r >= 1,
            forall|j: int| 0 <= j < shape@.len() ==> shape@[j] != 0,
        decreases k,
    {
        let i: usize = k - 1;
        proof {
            lemma_stride_grows(shape@, 0, i as int, n as int);
            assert(r * shape@[i as int] == stride_between(shape@, i as int, n as int))
                by (nonlinear_arith)
                requires
                    r == stride_between(shape@, k as int, n as int),
                    stride_between(shape@, i as int, n as int) == shape@[i as int]
                        * stride_between(shape@, k as int, n as int),
            ;
            assert(r * shape@[i as int] >= 1) by (nonlinear_arith)
                requires
                    r >= 1,
                    shape@[i as int] >= 1,
            ;
        }
        if r > usize::MAX / shape[i] {
            proof {
                assert(r * shape@[i as int] > usize::MAX) by (nonlinear_arith)
                    requires
                        r > (usize::MAX as int) / (shape@[i as int] as int),
                        shape@[i as int] >= 1,
                ;
            }
            return None;
        }
        proof {
            assert(r * shape@[i as int] <= usize::MAX) by (nonlinear_arith)
                requires
                    r <= (usize::MAX as int) / (shape@[i as int] as int),
                    shape@[i as int] >= 1,
                    r >= 1,
            ;
        }
        r = r * shape[i];
        k = i;
    }
    Some(r)
}

impl ArraySimulationState {
    /// The value under a name: of a stock first, then of a flow, then of an auxiliary.
    pub open spec fn value_of(&self, name: Seq<char>) -> Option<ArrayValue> {
        if holds(self.stocks@, name) {
            Some(self.stocks@[position_of(self.stocks@, name)].value)
        } else if holds(self.flows@, name) {
            Some(self.flows@[position_of(self.flows@, name)].value)
        } else if holds(self.auxiliaries@, name) {
            Some(self.auxiliaries@[position_of(self.auxiliaries@, name)].value)
        } else {
            None
        }
    }

    /// A state at time zero without variables.
    pub fn new() -> (r: ArraySimulationState)
        ensures
            r.time.bits == 0,
            r.stocks@.len() == 0,
            r.flows@.len() == 0,
            r.auxiliaries@.len() == 0,
    {
        ArraySimulationState {
            time: Number::zero(),
            stocks: Vec::new(),
            flows: Vec::new(),
            auxiliaries: Vec::new(),
        }
    }

    /// The value of a variable.
    pub fn get_value(&self, name: &str) -> (r: Option<&ArrayValue>)
        ensures
            match r {
                Some(v) => self.value_of(name@) == Some(*v),
                None => self.value_of(name@) is None,
            },
    {
        if let Some(i) = find_named(&self.stocks, name) {
            return Some(&self.stocks[i].value);
        }
        if let Some(i) = find_named(&self.flows, name) {
            return Some(&self.flows[i].value);
        }
        if let Some(i) = find_named(&self.auxiliaries, name) {
            return Some(&self.auxiliaries[i].value);
        }
        None
    }

    /// The number at the coordinates in a variable.
    pub fn get_element(&self, name: &str, indices: &[usize]) -> (r: Result<Number, String>)
        requires
            self.value_of(name@) matches Some(v) ==> v.well_formed(),
        ensures
            match r {
                Ok(n) => self.value_of(name@) matches Some(v) && v.at(indices@) == Some(n),
                Err(msg) => match self.value_of(name@) {
                    Some(v) => v.at(indices@) is None && msg@ == v.refusal(indices@),
                    None => msg@ == "Variable '"@ + name@ + "' not found"@,
                },
            },
    {
        match self.get_value(name) {
            Some(v) => v.get(indices),
            None => Err(concat3("Variable '", name, "' not found")),
        }
    }

    /// The sizes of the dimensions named, where each of them is a dimension of the model.
    fn shape_for(model: &Model, names: &Vec<String>) -> (r: Option<Vec<usize>>)
        ensures
            match r {
                Some(shape) => shape_of(model.dimension_list(), names@, names@.len() as int)
                    == Some(shape@),
                None => shape_of(model.dimension_list(), names@, names@.len() as int) is None,
            },
    {
        let mut shape: Vec<usize> = Vec::new();
        let mut k: usize = 0;
        while k < names.len()
            invariant
                k <= names@.len(),
                shape_of(model.dimension_list(), names@, k as int) == Some(shape@),
            decreases names@.len() - k,
        {
            match find_named(model.dimensions(), names[k].as_str()) {
                Some(p) => {
                    shape.push(model.dimensions()[p].elements.len());
                },
                None => {
                    proof {
                        lemma_shape_fails(
                            model.dimension_list(),
                            names@,
                            k + 1,
                            names@.len() as int,
                        );
                    }
                    return None;
                },
            }
            k += 1;
        }
        Some(shape)
    }

    /// The state at the start of a run: each stock at its initial value, as an
    /// array where the stock has dimensions of the model; every flow and
    /// auxiliary at zero. `initial_values` are the values of the initial
    /// equations of the stocks, in the order of the model.
    pub fn initialize_from_model(model: &Model, initial_values: &Vec<Number>) -> (r: Result<
        ArraySimulationState,
        String,
    >)
        ensures
            match r {
                Ok(s) => initial_values@.len() == model.stock_list().len() && s.time
                    == model.time_config().start && labels(s.stocks@) == labels(model.stock_list())
                    && labels(s.flows@) == labels(model.flow_list()) && labels(s.auxiliaries@)
                    == labels(model.auxiliary_list()) && (forall|i: int|
                    0 <= i < s.stocks@.len() ==> starts_as(
                        *model,
                        model.stock_list()[i],
                        initial_values@[i],
                        (#[trigger] s.stocks@[i]).value,
                    )) && (forall|i: int|
                    0 <= i < s.flows@.len() ==> (#[trigger] s.flows@[i]).value
                        == ArrayValue::Scalar(Number { bits: 0 })) && (forall|i: int|
                    0 <= i < s.auxiliaries@.len() ==> (#[trigger] s.auxiliaries@[i]).value
                        == ArrayValue::Scalar(Number { bits: 0 })),
                Err(msg) => initial_values@.len() != model.stock_list().len() && msg@
                    == "One initial value is needed for each stock"@,
            },
    {
        let stocks = model.stocks();
        if initial_values.len() != stocks.len() {
            return Err(String::from_str("One initial value is needed for each stock"));
        }
        let mut values: Vec<NamedValue> = Vec::new();
        let mut i: usize = 0;
        while i < stocks.len()
            invariant
                i <= stocks@.len(),
                stocks@ == model.stock_list(),
                initial_values@.len() == stocks@.len(),
                values@.len() == i,
                forall|k: int| 0 <= k < i ==> (#[trigger] values@[k]).name@ == stocks@[k].name@,
                forall|k: int|
                    0 <= k < i ==> starts_as(
                        *model,
                        stocks@[k],
                        initial_values@[k],
                        (#[trigger] values@[k]).value,
                    ),
            decreases stocks@.len() - i,
        {
            let initial = initial_values[i];
            let stock = &stocks[i];
            let shape = match &stock.dimensions {
                Some(names) => Self::shape_for(model, names),
                None => None,
            };
            let value = match shape {
                Some(shape) => {
                    let places = if shape.len() > 0 {
                        checked_size(&shape)
                    } else {
                        None
                    };
                    match places {
                        Some(n) => {
                            let mut data: Vec<Number> = Vec::new();
                            let mut c: usize = 0;
                            while c < n
                                invariant
                                    c <= n,
                                    data@.len() == c,
                                    forall|m: int| 0 <= m < c ==> data@[m] == initial,
                                decreases n - c,
                            {
                                data.push(initial);
                                c += 1;
                            }
                            ArrayValue::Array { shape, data }
                        },
                        None => ArrayValue::Scalar(initial),
                    }
                },
                None => ArrayValue::Scalar(initial),
            };
            values.push(NamedValue { name: stock.name.clone(), value });
            i += 1;
        }
        assert(labels(values@) =~= labels(stocks@));
        let flows = Self::zeros_for(model.flows());
        let auxiliaries = Self::zeros_for(model.auxiliaries());
        Ok(ArraySimulationState { time: model.time().start, stocks: values, flows, auxiliaries })
    }

    fn zeros_for<T: Named>(items: &Vec<T>) -> (r: Vec<NamedValue>)
        ensures
            labels(r@) == labels(items@),
            forall|i: int|
                0 <= i < r@.len() ==> (#[trigger] r@[i]).value == ArrayValue::Scalar(
                    Number { bits: 0 },
                ),
    {
        let mut r: Vec<NamedValue> = Vec::new();
        let mut i: usize = 0;
        while i < items.len()
            invariant
                i <= items@.len(),
                r@.len() == i,
                forall|k: int| 0 <= k < i ==> (#[trigger] r@[k]).name@ == items@[k].label(),
                forall|k: int|
                    0 <= k < i ==> (#[trigger] r@[k]).value == ArrayValue::Scalar(
                        Number { bits: 0 },
                    ),
            decreases items@.len() - i,
        {
            r.push(
                NamedValue {
                    name: items[i].name_ref().clone(),
                    value: ArrayValue::Scalar(Number::zero()),
                },
            );
            i += 1;
        }
        assert(labels(r@) =~= labels(items@));
        r
    }
}

/// Once the sizes of some of the dimensions named cannot be had, those of more
/// cannot be had either.
pub proof fn lemma_shape_fails(dimensions: Seq<Dimension>, names: Seq<String>, k: int, n: int)
    requires
        0 <= k <= n,
        shape_of(dimensions, names, k) is None,
    ensures
        shape_of(dimensions, names, n) is None,
    decreases n - k,
{
    if k < n {
        lemma_shape_fails(dimensions, names, k, n - 1);
    }
}

} // verus!
