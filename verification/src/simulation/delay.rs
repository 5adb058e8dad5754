//! Delays: what they hold and how their history is kept. The arithmetic that
//! advances a delay is left to the user of the library.

use vstd::prelude::*;
use vstd::string::*;
use crate::model::named::{find_named, first_at, holds, position_of, Named};
use crate::number::Number;

verus! {

/// A cascade of first-order lags: a delay of order one has one stage, a delay
/// of a higher order as many stages as its order.
#[derive(Debug, Clone)]
pub struct ExponentialDelay {
    /// The output: the level of the last stage.
    pub value: Number,
    /// The time constant of the whole cascade.
    pub delay_time: Number,
    pub order: usize,
    /// The levels of the stages, the one nearest the input first.
    pub stages: Vec<Number>,
}

/// The number of stages of a delay of the given order.
pub open spec fn stage_count(order: usize) -> int {
    if order > 1 {
        order as int
    } else {
        1
    }
}

impl ExponentialDelay {
    /// Whether the delay has the stages of its order and puts out the last of them.
    pub open spec fn well_formed(&self) -> bool {
        self.stages@.len() == stage_count(self.order) && self.value == self.stages@.last()
    }

    /// A delay with every stage at the initial value.
    pub fn new(initial_value: Number, delay_time: Number, order: usize) -> (r: ExponentialDelay)
        ensures
            r.well_formed(),
            r.value == initial_value,
            r.delay_time == delay_time,
            r.order == order,
            forall|i: int| 0 <= i < r.stages@.len() ==> r.stages@[i] == initial_value,
    {
        let count = if order > 1 {
            order
        } else {
            1
        };
        let mut stages: Vec<Number> = Vec::new();
        let mut i: usize = 0;
        while i < count
            invariant
                i <= count,
                stages@.len() == i,
                forall|k: int| 0 <= k < i ==> stages@[k] == initial_value,
            decreases count - i,
        {
            stages.push(initial_value);
            i += 1;
        }
        ExponentialDelay { value: initial_value, delay_time, order, stages }
    }

    /// The output of the delay.
    pub fn get_value(&self) -> (r: Number)
        ensures
            r == self.value,
    {
        self.value
    }

    /// Takes the levels that an advance of the stages has given; the output
    /// becomes the last of them. Levels that are not one for each stage are
    /// not taken.
    pub fn set_stages(&mut self, stages: Vec<Number>) -> (r: bool)
        ensures
            r == (stages@.len() == old(self).stages@.len() && stages@.len() > 0),
            r ==> final(self).stages == stages && final(self).value == stages@.last(),
            !r ==> *final(self) == *old(self),
            final(self).delay_time == old(self).delay_time,
            final(self).order == old(self).order,
            old(self).well_formed() ==> final(self).well_formed(),
    {
        if stages.len() != self.stages.len() || stages.len() == 0 {
            return false;
        }
        self.value = stages[stages.len() - 1];
        self.stages = stages;
        true
    }
}

/// A history in which the first points are dropped while more than two points
/// are left and the first lies before the cutoff.
pub open spec fn pruned(history: Seq<(Number, Number)>, cutoff: Number) -> Seq<(Number, Number)>
    decreases history.len(),
{
    if history.len() > 2 && history[0].0.below(cutoff) {
        pruned(history.drop_first(), cutoff)
    } else {
        history
    }
}

/// Where the delayed value of a pipeline delay is to be had from.
#[derive(Debug, Clone, Copy, PartialEq, Eq)]
pub enum Delayed {
    /// The target lies at or before the first point of the history, or there
    /// is no history: the value is the initial value.
    Initial,
    /// The target lies after the first point and not after the point at this
    /// position: the value is on the line through this point and the one before.
    Between(usize),
    /// The target lies after every point: the value is the last one recorded.
    Last(Number),
}

/// The first position from `i` on whose point lies at or after the target; the
/// length where there is none.
pub open spec fn first_at_or_after(history: Seq<(Number, Number)>, target: Number, i: int) -> int
    decreases history.len() - i,
{
    if 0 <= i < history.len() && !target.at_most(history[i].0) {
        first_at_or_after(history, target, i + 1)
    } else {
        i
    }
}

/// Where the value at `target` is to be had from.
pub open spec fn delayed(history: Seq<(Number, Number)>, target: Number) -> Delayed {
    if history.len() == 0 || target.at_most(history[0].0) {
        Delayed::Initial
    } else {
        let i = first_at_or_after(history, target, 0);
        if i >= history.len() {
            Delayed::Last(history.last().1)
        } else if i == 0 {
            Delayed::Initial
        } else {
            Delayed::Between(i as usize)
        }
    }
}

/// A pure time delay: the input as it was one delay ago, read from a history
/// of the inputs.
#[derive(Debug, Clone)]
pub struct PipelineDelay {
    history: Vec<(Number, Number)>,
    delay_time: Number,
    initial_value: Number,
}

impl PipelineDelay {
    /// The recorded points, each a time and the input at that time.
    pub closed spec fn points(&self) -> Seq<(Number, Number)> {
        self.history@
    }

    /// The length of the delay.
    pub closed spec fn length(&self) -> Number {
        self.delay_time
    }

    /// The value put out while the target lies before the history.
    pub closed spec fn initial(&self) -> Number {
        self.initial_value
    }

    /// A delay without history.
    pub fn new(initial_value: Number, delay_time: Number) -> (r: PipelineDelay)
        ensures
            r.points().len() == 0,
            r.length() == delay_time,
            r.initial() == initial_value,
    {
        PipelineDelay { history: Vec::new(), delay_time, initial_value }
    }

    pub fn delay_time(&self) -> (r: Number)
        ensures
            r == self.length(),
    {
        self.delay_time
    }

    pub fn initial_value(&self) -> (r: Number)
        ensures
            r == self.initial(),
    {
        self.initial_value
    }

    /// The recorded points.
    pub fn history(&self) -> (r: &Vec<(Number, Number)>)
        ensures
            r@ == self.points(),
    {
        &self.history
    }

    /// Records the input at a time, then drops the points that lie before the
    /// cutoff, which is the time less twice the delay; two points always stay.
    pub fn push(&mut self, time: Number, value: Number, cutoff: Number)
        ensures
            final(self).points() == pruned(old(self).points().push((time, value)), cutoff),
            final(self).length() == old(self).length(),
            final(self).initial() == old(self).initial(),
    {
        self.history.push((time, value));
        let ghost full = self.history@;
        while self.history.len() > 2 && self.history[0].0.lt(&cutoff)
            invariant
                self.delay_time == old(self).delay_time,
                self.initial_value == old(self).initial_value,
                pruned(self.history@, cutoff) == pruned(full, cutoff),
            decreases self.history@.len(),
        {
            let ghost before = self.history@;
            self.history.remove(0);
            assert(self.history@ =~= before.drop_first());
        }
    }

    /// Where the value at `target`, which is the current time less the delay,
    /// is to be had from.
    pub fn locate(&self, target: Number) -> (r: Delayed)
        ensures
            r == delayed(self.points(), target),
            r matches Delayed::Between(i) ==> 1 <= i < self.points().len(),
    {
        let n = self.history.len();
        if n == 0 || target.le(&self.history[0].0) {
            return Delayed::Initial;
        }
        let mut i: usize = 0;
        while i < n && !target.le(&self.history[i].0)
            invariant
                n == self.history@.len(),
                i <= n,
                first_at_or_after(self.history@, target, 0) == first_at_or_after(
                    self.history@,
                    target,
                    i as int,
                ),
            decreases n - i,
        {
            i += 1;
        }
        if i >= n {
            Delayed::Last(self.history[n - 1].1)
        } else if i == 0 {
            Delayed::Initial
        } else {
            Delayed::Between(i)
        }
    }
}

/// Pruning keeps the end of the history, and at least two points of a history
/// that has two.
pub proof fn lemma_pruned(history: Seq<(Number, Number)>, cutoff: Number)
    ensures
        pruned(history, cutoff).len() <= history.len(),
        history.len() >= 2 ==> pruned(history, cutoff).len() >= 2,
        history.len() < 2 ==> pruned(history, cutoff) == history,
        pruned(history, cutoff) == history.skip(history.len() - pruned(history, cutoff).len()),
        forall|i: int|
            0 <= i < history.len() - pruned(history, cutoff).len() ==> history[i].0.below(cutoff),
    decreases history.len(),
{
    if history.len() > 2 && history[0].0.below(cutoff) {
        let rest = history.drop_first();
        lemma_pruned(rest, cutoff);
        let kept = pruned(rest, cutoff);
        assert(rest.skip(rest.len() - kept.len()) =~= history.skip(history.len() - kept.len()));
        assert forall|i: int| 0 <= i < history.len() - kept.len() implies history[i].0.below(
            cutoff,
        ) by {
            if i > 0 {
                assert(rest[i - 1] == history[i]);
            }
        }
    } else {
        assert(history.skip(0) =~= history);
    }
}

/// An exponential delay under the key of its call site.
#[derive(Debug, Clone)]
pub struct KeyedExponential {
    pub key: String,
    pub delay: ExponentialDelay,
}

impl Named for KeyedExponential {
    open spec fn label(&self) -> Seq<char> {
        self.key@
    }

    fn name_ref(&self) -> (r: &String) {
        &self.key
    }
}

/// A pipeline delay under the key of its call site.
#[derive(Debug, Clone)]
pub struct KeyedPipeline {
    pub key: String,
    pub delay: PipelineDelay,
}

impl Named for KeyedPipeline {
    open spec fn label(&self) -> Seq<char> {
        self.key@
    }

    fn name_ref(&self) -> (r: &String) {
        &self.key
    }
}

/// The delays of a run, each under the key of the call site it belongs to.
#[derive(Debug, Clone)]
pub struct DelayManager {
    pub exponential_delays: Vec<KeyedExponential>,
    pub pipeline_delays: Vec<KeyedPipeline>,
}

impl DelayManager {
    /// No delays.
    pub fn new() -> (r: DelayManager)
        ensures
            r.exponential_delays@.len() == 0,
            r.pipeline_delays@.len() == 0,
    {
        DelayManager { exponential_delays: Vec::new(), pipeline_delays: Vec::new() }
    }

    /// The position of the exponential delay under `key`; where there is none
    /// yet, one is made with every stage at the initial value.
    pub fn get_or_create_exponential(
        &mut self,
        key: &str,
        initial_value: Number,
        delay_time: Number,
        order: usize,
    ) -> (r: usize)
        ensures
            final(self).pipeline_delays == old(self).pipeline_delays,
            first_at(final(self).exponential_delays@, key@, r as int),
            if holds(old(self).exponential_delays@, key@) {
                final(self).exponential_delays == old(self).exponential_delays
            } else {
                r == old(self).exponential_delays@.len() && final(self).exponential_delays@.len()
                    == r + 1 && final(self).exponential_delays@.drop_last() == old(self).exponential_delays@ && final(self).exponential_delays@[r as int].delay.value
                    == initial_value && final(self).exponential_delays@[r as int].delay.order
                    == order && final(self).exponential_delays@[r as int].delay.delay_time
                    == delay_time && final(self).exponential_delays@[r as int].delay.well_formed()
            },
    {
        match find_named(&self.exponential_delays, key) {
            Some(i) => i,
            None => {
                let ghost before = self.exponential_delays@;
                self.exponential_delays.push(
                    KeyedExponential {
                        key: String::from_str(key),
                        delay: ExponentialDelay::new(initial_value, delay_time, order),
                    },
                );
                assert(self.exponential_delays@.drop_last() =~= before);
                assert forall|j: int| 0 <= j < before.len() implies (
                #[trigger] self.exponential_delays@[j]).label() != key@ by {
                    assert(self.exponential_delays@[j] == before[j]);
                }
                self.exponential_delays.len() - 1
            },
        }
    }

    /// The position of the pipeline delay under `key`; where there is none
    /// yet, one is made without history.
    pub fn get_or_create_pipeline(&mut self, key: &str, initial_value: Number, delay_time: Number)
        -> (r: usize)
        ensures
            final(self).exponential_delays == old(self).exponential_delays,
            first_at(final(self).pipeline_delays@, key@, r as int),
            if holds(old(self).pipeline_delays@, key@) {
                final(self).pipeline_delays == old(self).pipeline_delays
            } else {
                r == old(self).pipeline_delays@.len() && final(self).pipeline_delays@.len() == r
                    + 1 && final(self).pipeline_delays@.drop_last() == old(self).pipeline_delays@
                    && final(self).pipeline_delays@[r as int].delay.points().len() == 0 && final(self).pipeline_delays@[r as int].delay.length() == delay_time && final(self).pipeline_delays@[r as int].delay.initial() == initial_value
            },
    {
        match find_named(&self.pipeline_delays, key) {
            Some(i) => i,
            None => {
                let ghost before = self.pipeline_delays@;
                self.pipeline_delays.push(
                    KeyedPipeline {
                        key: String::from_str(key),
                        delay: PipelineDelay::new(initial_value, delay_time),
                    },
                );
                assert(self.pipeline_delays@.drop_last() =~= before);
                assert forall|j: int| 0 <= j < before.len() implies (
                #[trigger] self.pipeline_delays@[j]).label() != key@ by {
                    assert(self.pipeline_delays@[j] == before[j]);
                }
                self.pipeline_delays.len() - 1
            },
        }
    }
}

} // verus!
