//! Dimensions (subscript ranges) for array-valued variables.

use vstd::prelude::*;
use vstd::string::*;
use crate::model::named::Named;
use crate::text::{clone_strings, concat3, concat5};

verus! {

/// The names held by a list of strings, in order.
pub open spec fn names_of(v: Seq<String>) -> Seq<Seq<char>> {
    v.map_values(|s: String| s@)
}

/// A named, ordered list of element names.
#[derive(Debug, Clone)]
pub struct Dimension {
    pub name: String,
    pub elements: Vec<String>,
    pub description: Option<String>,
}

impl Named for Dimension {
    open spec fn label(&self) -> Seq<char> {
        self.name@
    }

    fn name_ref(&self) -> (r: &String) {
        &self.name
    }
}

impl Dimension {
    /// The element names of this dimension, in order.
    pub open spec fn element_names(&self) -> Seq<Seq<char>> {
        names_of(self.elements@)
    }

    /// The least position at which `element` occurs among the elements, if any.
    pub open spec fn index_of(&self, element: Seq<char>) -> Option<int> {
        let names = self.element_names();
        if names.contains(element) {
            Some(names.index_of(element))
        } else {
            None
        }
    }

    pub fn new(name: &str, elements: Vec<String>) -> (r: Dimension)
        ensures
            r.name@ == name@,
            r.elements == elements,
            r.description.is_none(),
    {
        Dimension { name: String::from_str(name), elements, description: None }
    }

    pub fn with_description(self, description: &str) -> (r: Dimension)
        ensures
            r.name == self.name,
            r.elements == self.elements,
            r.description.is_some(),
            r.description.unwrap()@ == description@,
    {
        Dimension {
            name: self.name,
            elements: self.elements,
            description: Some(String::from_str(description)),
        }
    }

    /// Number of elements.
    pub fn size(&self) -> (n: usize)
        ensures
            n == self.elements@.len(),
    {
        self.elements.len()
    }

    /// Position of the first element equal to `element`.
    pub fn get_index(&self, element: &str) -> (r: Option<usize>)
        ensures
            match r {
                Some(i) => i < self.elements@.len() && self.elements@[i as int]@ == element@
                    && forall|j: int| 0 <= j < i ==> self.elements@[j]@ != element@,
                None => !self.element_names().contains(element@),
            },
    {
        let wanted = String::from_str(element);
        let mut i: usize = 0;
        while i < self.elements.len()
            invariant
                i <= self.elements@.len(),
                wanted@ == element@,
                forall|j: int| 0 <= j < i ==> self.elements@[j]@ != element@,
            decreases self.elements@.len() - i,
        {
            if self.elements[i] == wanted {
                return Some(i);
            }
            i += 1;
        }
        assert forall|j: int| 0 <= j < self.element_names().len() implies self.element_names()[j]
            != element@ by {
            assert(self.element_names()[j] == self.elements@[j]@);
        }
        None
    }

    /// Whether `element` is one of the elements.
    pub fn contains(&self, element: &str) -> (r: bool)
        ensures
            r == self.element_names().contains(element@),
    {
        match self.get_index(element) {
            Some(i) => {
                assert(self.element_names()[i as int] == element@);
                true
            },
            None => false,
        }
    }
}

/// A subscript written in an expression.
#[derive(Debug, Clone)]
pub enum SubscriptRef {
    /// One element of a dimension, by name.
    Element(String),
    /// A whole dimension, by name.
    Dimension(String),
    /// Every element of the dimension in that position.
    Wildcard,
}

/// Whether the names of the dimensions in `dims` are pairwise different.
pub open spec fn distinct_names(dims: Seq<Dimension>) -> bool {
    forall|i: int, j: int|
        0 <= i < j < dims.len() ==> (#[trigger] dims[i]).name@ != (#[trigger] dims[j]).name@
}

/// Whether some dimension in `dims` is called `name`.
pub open spec fn has_name(dims: Seq<Dimension>, name: Seq<char>) -> bool {
    exists|i: int| 0 <= i < dims.len() && (#[trigger] dims[i]).name@ == name
}

/// Whether `i` is the first position in `dims` of a dimension called `name`.
pub open spec fn first_named(dims: Seq<Dimension>, name: Seq<char>, i: int) -> bool {
    &&& 0 <= i < dims.len()
    &&& dims[i].name@ == name
    &&& forall|j: int| 0 <= j < i ==> (#[trigger] dims[j]).name@ != name
}

/// Whether `d` is the first dimension in `dims` called `name`.
pub open spec fn is_named(dims: Seq<Dimension>, name: Seq<char>, d: Dimension) -> bool {
    exists|i: int| first_named(dims, name, i) && dims[i] == d
}

/// Whether the first dimension in `dims` called `name` has `size` elements.
pub open spec fn has_size(dims: Seq<Dimension>, name: Seq<char>, size: int) -> bool {
    exists|i: int| first_named(dims, name, i) && dims[i].elements@.len() == size
}

/// What a subscript stands for inside the dimension `d`: the element names it selects.
pub open spec fn resolved(subscript: SubscriptRef, d: Dimension) -> Option<Seq<String>> {
    match subscript {
        SubscriptRef::Element(e) => if d.element_names().contains(e@) {
            Some(seq![e])
        } else {
            None
        },
        SubscriptRef::Dimension(n) => if n@ == d.name@ {
            Some(d.elements@)
        } else {
            None
        },
        SubscriptRef::Wildcard => Some(d.elements@),
    }
}

/// Product of the sizes `shape[from]`, ..., `shape[to - 1]`; one when there are none.
pub open spec fn stride_between(shape: Seq<usize>, from: int, to: int) -> int
    decreases to - from,
{
    if from < 0 || from >= to {
        1
    } else {
        shape[from] * stride_between(shape, from + 1, to)
    }
}

/// Row-major offset contributed by the coordinates from position `from` on, where
/// coordinate `i` weighs the product of the sizes of the axes after it.
pub open spec fn flat_offset(indices: Seq<usize>, shape: Seq<usize>, from: int) -> int
    decreases indices.len() - from,
{
    if from < 0 || from >= indices.len() {
        0
    } else {
        indices[from] * stride_between(shape, from + 1, indices.len() as int) + flat_offset(
            indices,
            shape,
            from + 1,
        )
    }
}

/// A stride is never negative.
pub proof fn lemma_stride_nonnegative(shape: Seq<usize>, from: int, to: int)
    ensures
        stride_between(shape, from, to) >= 0,
    decreases to - from,
{
    if !(from < 0 || from >= to) {
        lemma_stride_nonnegative(shape, from + 1, to);
        assert(shape[from] * stride_between(shape, from + 1, to) >= 0) by (nonlinear_arith)
            requires
                shape[from] >= 0,
                stride_between(shape, from + 1, to) >= 0,
        ;
    }
}

/// The offset of a suffix of the coordinates is never negative.
pub proof fn lemma_flat_offset_nonnegative(indices: Seq<usize>, shape: Seq<usize>, from: int)
    ensures
        0 <= flat_offset(indices, shape, from),
    decreases indices.len() - from,
{
    if !(from < 0 || from >= indices.len()) {
        lemma_flat_offset_nonnegative(indices, shape, from + 1);
        lemma_stride_nonnegative(shape, from + 1, indices.len() as int);
        assert(indices[from] * stride_between(shape, from + 1, indices.len() as int) >= 0)
            by (nonlinear_arith)
            requires
                indices[from] >= 0,
                stride_between(shape, from + 1, indices.len() as int) >= 0,
        ;
    }
}

/// The offset of a suffix of the coordinates is never more than that of a longer suffix.
pub proof fn lemma_flat_offset_monotone(indices: Seq<usize>, shape: Seq<usize>, from: int, to: int)
    requires
        0 <= from <= to,
    ensures
        0 <= flat_offset(indices, shape, to) <= flat_offset(indices, shape, from),
    decreases to - from,
{
    lemma_flat_offset_nonnegative(indices, shape, to);
    if from < to {
        lemma_flat_offset_monotone(indices, shape, from + 1, to);
        if from < indices.len() {
            lemma_stride_nonnegative(shape, from + 1, indices.len() as int);
            assert(indices[from] * stride_between(shape, from + 1, indices.len() as int) >= 0)
                by (nonlinear_arith)
                requires
                    indices[from] >= 0,
                    stride_between(shape, from + 1, indices.len() as int) >= 0,
            ;
        }
    }
}

/// The dimensions known to a model, each under its own name: a manager built with
/// `new` and `add_dimension` never holds two dimensions of one name.
#[derive(Debug, Clone)]
pub struct DimensionManager {
    dimensions: Vec<Dimension>,
}

impl DimensionManager {
    /// The dimensions in the order in which they were added.
    pub closed spec fn view(&self) -> Seq<Dimension> {
        self.dimensions@
    }

    pub fn new() -> (r: DimensionManager)
        ensures
            r@ == Seq::<Dimension>::empty(),
    {
        DimensionManager { dimensions: Vec::new() }
    }

    fn position(&self, name: &str) -> (r: Option<usize>)
        ensures
            match r {
                Some(i) => first_named(self@, name@, i as int),
                None => !has_name(self@, name@),
            },
    {
        let wanted = String::from_str(name);
        let mut i: usize = 0;
        while i < self.dimensions.len()
            invariant
                i <= self.dimensions@.len(),
                wanted@ == name@,
                forall|j: int| 0 <= j < i ==> (#[trigger] self.dimensions@[j]).name@ != name@,
            decreases self.dimensions@.len() - i,
        {
            if self.dimensions[i].name == wanted {
                return Some(i);
            }
            i += 1;
        }
        None
    }

    /// Adds a dimension unless one of that name is already there.
    pub fn add_dimension(&mut self, dimension: Dimension) -> (r: Result<(), String>)
        ensures
            distinct_names(old(self)@) ==> distinct_names(final(self)@),
            match r {
                Ok(_) => !has_name(old(self)@, dimension.name@) && final(self)@ == old(self)@.push(
                    dimension,
                ),
                Err(msg) => has_name(old(self)@, dimension.name@) && final(self)@ == old(self)@
                    && msg@ == "Dimension '"@ + dimension.name@ + "' already exists"@,
            },
    {
        match self.position(dimension.name.as_str()) {
            Some(_) => Err(concat3("Dimension '", dimension.name.as_str(), "' already exists")),
            None => {
                self.dimensions.push(dimension);
                Ok(())
            },
        }
    }

    /// The dimension called `name`, if there is one.
    pub fn get_dimension(&self, name: &str) -> (r: Option<&Dimension>)
        ensures
            match r {
                Some(d) => is_named(self@, name@, *d),
                None => !has_name(self@, name@),
            },
    {
        match self.position(name) {
            Some(i) => Some(&self.dimensions[i]),
            None => None,
        }
    }

    /// The element names that `subscript` selects in the dimension called `dimension_name`.
    pub fn resolve_subscript(&self, subscript: &SubscriptRef, dimension_name: &str) -> (r: Result<
        Vec<String>,
        String,
    >)
        ensures
            match r {
                Ok(names) => exists|d: Dimension|
                    is_named(self@, dimension_name@, d) && resolved(*subscript, d) == Some(
                        names@,
                    ),
                Err(msg) => if !has_name(self@, dimension_name@) {
                    msg@ == "Dimension '"@ + dimension_name@ + "' not found"@
                } else {
                    exists|d: Dimension|
                        is_named(self@, dimension_name@, d) && resolved(*subscript, d)
                            is None && match *subscript {
                            SubscriptRef::Element(e) => msg@ == "Element '"@ + e@
                                + "' not found in dimension '"@ + dimension_name@ + "'"@,
                            SubscriptRef::Dimension(n) => msg@ == "Subset '"@ + n@
                                + "' not found"@,
                            SubscriptRef::Wildcard => false,
                        }
                },
            },
    {
        let dimension = match self.get_dimension(dimension_name) {
            Some(d) => d,
            None => {
                return Err(concat3("Dimension '", dimension_name, "' not found"));
            },
        };
        match subscript {
            SubscriptRef::Element(element) => {
                if dimension.contains(element.as_str()) {
                    let mut names: Vec<String> = Vec::new();
                    names.push(element.clone());
                    assert(names@ =~= seq![*element]);
                    assert(resolved(*subscript, *dimension) == Some(names@));
                    Ok(names)
                } else {
                    assert(resolved(*subscript, *dimension) is None);
                    Err(
                        concat5(
                            "Element '",
                            element.as_str(),
                            "' not found in dimension '",
                            dimension_name,
                            "'",
                        ),
                    )
                }
            },
            SubscriptRef::Dimension(dim_name) => {
                let wanted = String::from_str(dimension_name);
                if *dim_name == wanted {
                    let names = clone_strings(&dimension.elements);
                    assert(resolved(*subscript, *dimension) == Some(names@));
                    Ok(names)
                } else {
                    assert(resolved(*subscript, *dimension) is None);
                    Err(concat3("Subset '", dim_name.as_str(), "' not found"))
                }
            },
            SubscriptRef::Wildcard => {
                let names = clone_strings(&dimension.elements);
                assert(resolved(*subscript, *dimension) == Some(names@));
                Ok(names)
            },
        }
    }

    /// The sizes of the dimensions called `dimension_names`, in that order.
    pub fn get_shape(&self, dimension_names: &[String]) -> (r: Result<Vec<usize>, String>)
        ensures
            match r {
                Ok(shape) => shape@.len() == dimension_names@.len() && forall|k: int|
                    0 <= k < dimension_names@.len() ==> has_size(
                        self@,
                        dimension_names@[k]@,
                        #[trigger] shape@[k] as int,
                    ),
                Err(msg) => exists|k: int|
                    0 <= k < dimension_names@.len() && !has_name(self@, dimension_names@[k]@)
                        && msg@ == "Dimension '"@ + (#[trigger] dimension_names@[k])@
                        + "' not found"@ && forall|j: int|
                        0 <= j < k ==> has_name(self@, (#[trigger] dimension_names@[j])@),
            },
    {
        let mut shape: Vec<usize> = Vec::new();
        let mut k: usize = 0;
        while k < dimension_names.len()
            invariant
                k <= dimension_names@.len(),
                shape@.len() == k,
                forall|m: int|
                    0 <= m < k ==> has_size(
                        self@,
                        dimension_names@[m]@,
                        #[trigger] shape@[m] as int,
                    ),
                forall|j: int| 0 <= j < k ==> has_name(self@, (#[trigger] dimension_names@[j])@),
            decreases dimension_names@.len() - k,
        {
            match self.get_dimension(dimension_names[k].as_str()) {
                Some(d) => {
                    shape.push(d.size());
                },
                None => {
                    return Err(
                        concat3("Dimension '", dimension_names[k].as_str(), "' not found"),
                    );
                },
            }
            k += 1;
        }
        Ok(shape)
    }

    /// Row-major offset of the coordinates `indices` in an array of the given `shape`:
    /// `[2, 3]` in a `[5, 4]` array is `2 * 4 + 3`.
    pub fn indices_to_flat(&self, indices: &[usize], shape: &[usize]) -> (r: usize)
        requires
            indices@.len() <= 1 || indices@.len() <= shape@.len(),
            forall|i: int|
                1 <= i <= indices@.len() ==> #[trigger] stride_between(
                    shape@,
                    i,
                    indices@.len() as int,
                ) <= usize::MAX,
            flat_offset(indices@, shape@, 0) <= usize::MAX,
        ensures
            r == flat_offset(indices@, shape@, 0),
    {
        let n = indices.len();
        let mut flat_index: usize = 0;
        let mut multiplier: usize = 1;
        let mut k: usize = n;
        while k > 0
            invariant
                n == indices@.len(),
                k <= n,
                n <= 1 || n <= shape@.len(),
                flat_index == flat_offset(indices@, shape@, k as int),
                multiplier == stride_between(shape@, k as int, n as int),
                forall|i: int|
                    1 <= i <= n ==> #[trigger] stride_between(shape@, i, n as int) <= usize::MAX,
                flat_offset(indices@, shape@, 0) <= usize::MAX,
            decreases k,
        {
            let i: usize = k - 1;
            proof {
                lemma_flat_offset_monotone(indices@, shape@, 0, i as int);
                lemma_flat_offset_monotone(indices@, shape@, i as int, k as int);
                lemma_stride_nonnegative(shape@, k as int, n as int);
                assert(indices@[i as int] * stride_between(shape@, k as int, n as int) >= 0)
                    by (nonlinear_arith)
                    requires
                        indices@[i as int] >= 0,
                        stride_between(shape@, k as int, n as int) >= 0,
                ;
            }
            flat_index = flat_index + indices[i] * multiplier;
            if i > 0 {
                assert(stride_between(shape@, i as int, n as int) <= usize::MAX);
                multiplier = multiplier * shape[i];
                assert(multiplier == stride_between(shape@, i as int, n as int)) by (nonlinear_arith)
                    requires
                        multiplier == stride_between(shape@, k as int, n as int) * shape@[i as int],
                        stride_between(shape@, i as int, n as int) == shape@[i as int]
                            * stride_between(shape@, k as int, n as int),
                ;
                k = i;
            } else {
                return flat_index;
            }
        }
        flat_index
    }

    /// Splits `flat_index` into one coordinate per axis of `shape`, working from the
    /// last axis to the first. The last axis has stride one, so it takes the whole
    /// index and leaves nothing for the axes before it.
    pub fn flat_to_indices(&self, flat_index: usize, shape: &[usize]) -> (r: Vec<usize>)
        requires
            forall|j: int| 1 <= j < shape@.len() ==> shape@[j] != 0,
            stride_between(shape@, 1, shape@.len() as int) <= usize::MAX,
        ensures
            r@.len() == shape@.len(),
            forall|i: int|
                0 <= i < r@.len() ==> r@[i] == if i == r@.len() - 1 {
                    flat_index
                } else {
                    0usize
                },
    {
        let n = shape.len();
        let mut indices: Vec<usize> = Vec::new();
        let mut c: usize = 0;
        while c < n
            invariant
                c <= n,
                indices@.len() == c,
                forall|i: int| 0 <= i < c ==> indices@[i] == 0,
            decreases n - c,
        {
            indices.push(0);
            c += 1;
        }
        let mut remaining: usize = flat_index;
        let mut k: usize = n;
        while k > 0
            invariant
                n == shape@.len(),
                k <= n,
                indices@.len() == n,
                remaining == if k == n {
                    flat_index
                } else {
                    0usize
                },
                forall|i: int| 0 <= i < k ==> indices@[i] == 0,
                forall|i: int|
                    k <= i < n ==> indices@[i] == if i == n - 1 {
                        flat_index
                    } else {
                        0usize
                    },
                forall|j: int| 1 <= j < shape@.len() ==> shape@[j] != 0,
                stride_between(shape@, 1, shape@.len() as int) <= usize::MAX,
            decreases k,
        {
            let i: usize = k - 1;
            let axis_stride = self.suffix_product(shape, k);
            indices.set(i, remaining / axis_stride);
            remaining = remaining % axis_stride;
            proof {
                if k == n {
                    assert(axis_stride == 1);
                }
            }
            k = i;
        }
        indices
    }

    /// Product of the sizes of the axes from position `from` on.
    fn suffix_product(&self, shape: &[usize], from: usize) -> (r: usize)
        requires
            1 <= from <= shape@.len(),
            forall|j: int| 1 <= j < shape@.len() ==> shape@[j] != 0,
            stride_between(shape@, 1, shape@.len() as int) <= usize::MAX,
        ensures
            r == stride_between(shape@, from as int, shape@.len() as int),
            r >= 1,
    {
        let n = shape.len();
        let mut product: usize = 1;
        let mut k: usize = n;
        proof {
            lemma_stride_grows(shape@, 1, n as int, n as int);
        }
        while k > from
            invariant
                1 <= from <= k <= n,
                n == shape@.len(),
                product == stride_between(shape@, k as int, n as int),
                product >= 1,
                forall|j: int| 1 <= j < shape@.len() ==> shape@[j] != 0,
                stride_between(shape@, 1, shape@.len() as int) <= usize::MAX,
            decreases k,
        {
            let i: usize = k - 1;
            proof {
                lemma_stride_grows(shape@, 1, i as int, n as int);
                assert(product * shape@[i as int] == stride_between(shape@, i as int, n as int))
                    by (nonlinear_arith)
                    requires
                        product == stride_between(shape@, k as int, n as int),
                        stride_between(shape@, i as int, n as int) == shape@[i as int]
                            * stride_between(shape@, k as int, n as int),
                ;
                assert(product * shape@[i as int] >= 1) by (nonlinear_arith)
                    requires
                        product >= 1,
                        shape@[i as int] >= 1,
                ;
            }
            product = product * shape[i];
            k = i;
        }
        product
    }
}

/// With no empty axis from `from` on, a stride that starts later is at least one and
/// no larger than one that starts earlier.
pub proof fn lemma_stride_grows(shape: Seq<usize>, from: int, mid: int, to: int)
    requires
        0 <= from <= mid <= to <= shape.len(),
        forall|j: int| from <= j < to ==> shape[j] != 0,
    ensures
        1 <= stride_between(shape, mid, to) <= stride_between(shape, from, to),
    decreases to - from,
{
    if from < mid {
        lemma_stride_grows(shape, from + 1, mid, to);
        assert(shape[from] * stride_between(shape, from + 1, to) >= stride_between(
            shape,
            from + 1,
            to,
        )) by (nonlinear_arith)
            requires
                shape[from] >= 1,
                stride_between(shape, from + 1, to) >= 1,
        ;
    } else if mid < to {
        lemma_stride_grows(shape, from + 1, mid + 1, to);
        assert(shape[from] * stride_between(shape, from + 1, to) >= 1) by (nonlinear_arith)
            requires
                shape[from] >= 1,
                stride_between(shape, from + 1, to) >= 1,
        ;
    }
}

} // verus!
