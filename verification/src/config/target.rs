//! The target controller: two speeds, switched with hysteresis.

use crate::decimal::{decimal, lemma_decimal_injective, to_decimal};
use crate::diagnostic::{diagnostic_views, report, Diagnostic, DiagnosticView};
use crate::hardware::{Hardware, Value};
use crate::id::{Id, IdGenerator};
use crate::node::{
    node_views, sanitize_inputs, sanitized_input, sanitized_inputs, sanitizing_report, Inputs,
    IsValid, NbInput, Node, NodeType, NodeTypeLight, NodeTypeView, NodeView, Nodes,
};
use crate::update::UpdateError;
use vstd::prelude::*;

verus! {

/// A controller that runs the fan at `idle_speed` or at `load_speed`.
///
/// While idle it switches to load when the input rises above `idle_temp`;
/// under load it switches back when the input falls below `load_temp`.
#[derive(Clone, Debug)]
pub struct Target {
    pub name: String,
    pub idle_temp: u8,
    pub idle_speed: u8,
    pub load_temp: u8,
    pub load_speed: u8,
    /// The name of the node that feeds this one.
    pub input: Option<String>,
    /// The state: true while the controller is under load, that is from the
    /// tick at which the input rose above `idle_temp` until the tick at
    /// which it falls below `load_temp`. Not part of a configuration: a node
    /// starts idle.
    pub idle_has_been_reatch: bool,
}

/// The thresholds of a target as text, for editing.
#[derive(Clone, Debug)]
pub struct TargetCache {
    pub idle_temp: String,
    pub idle_speed: String,
    pub load_temp: String,
    pub load_speed: String,
}

/// A target as the contracts see it, with its texts as sequences of
/// characters.
pub struct TargetView {
    pub name: Seq<char>,
    pub idle_temp: u8,
    pub idle_speed: u8,
    pub load_temp: u8,
    pub load_speed: u8,
    pub input: Option<Seq<char>>,
    pub idle_has_been_reatch: bool,
}

/// A cache as the contracts see it.
pub struct TargetCacheView {
    pub idle_temp: Seq<char>,
    pub idle_speed: Seq<char>,
    pub load_temp: Seq<char>,
    pub load_speed: Seq<char>,
}

impl View for Target {
    type V = TargetView;

    open spec fn view(&self) -> TargetView {
        TargetView {
            name: self.name@,
            idle_temp: self.idle_temp,
            idle_speed: self.idle_speed,
            load_temp: self.load_temp,
            load_speed: self.load_speed,
            input: self.input.deep_view(),
            idle_has_been_reatch: self.idle_has_been_reatch,
        }
    }
}

impl View for TargetCache {
    type V = TargetCacheView;

    open spec fn view(&self) -> TargetCacheView {
        TargetCacheView {
            idle_temp: self.idle_temp@,
            idle_speed: self.idle_speed@,
            load_temp: self.load_temp@,
            load_speed: self.load_speed@,
        }
    }
}

impl TargetView {
    /// Whether the controller is under load after it has seen `value`.
    pub open spec fn under_load_after(self, value: Value) -> bool {
        if self.idle_has_been_reatch {
            value >= self.load_temp
        } else {
            value > self.idle_temp
        }
    }

    /// The speed that the controller asks for when it sees `value`.
    pub open spec fn speed(self, value: Value) -> Value {
        if self.under_load_after(value) {
            self.load_speed as Value
        } else {
            self.idle_speed as Value
        }
    }

    /// The controller after it has seen `value`.
    pub open spec fn step(self, value: Value) -> TargetView {
        TargetView { idle_has_been_reatch: self.under_load_after(value), ..self }
    }

    /// The controller after it has seen `values`, one after the other.
    pub open spec fn run(self, values: Seq<Value>) -> TargetView
        decreases values.len(),
    {
        if values.len() == 0 {
            self
        } else {
            self.run(values.drop_last()).step(values.last())
        }
    }

    /// The speeds that the controller asks for as it sees `values`, one
    /// after the other.
    pub open spec fn speeds(self, values: Seq<Value>) -> Seq<Value> {
        Seq::new(values.len(), |i: int| self.run(values.take(i)).speed(values[i]))
    }

    /// A controller can run when it has an input.
    pub open spec fn valid(self) -> bool {
        self.input is Some
    }

    /// The thresholds in decimal notation.
    pub open spec fn cache(self) -> TargetCacheView {
        TargetCacheView {
            idle_temp: decimal(self.idle_temp as nat),
            idle_speed: decimal(self.idle_speed as nat),
            load_temp: decimal(self.load_temp as nat),
            load_speed: decimal(self.load_speed as nat),
        }
    }

    /// The controller as a build admits it: idle, and without an input that
    /// does not resolve among `nodes`.
    pub open spec fn sanitized(self, nodes: Seq<NodeView>) -> TargetView {
        TargetView {
            input: sanitized_input(self.input, nodes, NodeTypeLight::Target),
            idle_has_been_reatch: false,
            ..self
        }
    }

    /// Whether the drop-out threshold lies below the trip threshold, so
    /// that the two leave a band in which the controller keeps its state.
    pub open spec fn has_band(self) -> bool {
        self.load_temp < self.idle_temp
    }

    /// What admitting the controller reports: first thresholds that leave
    /// no band, then an input that does not resolve.
    pub open spec fn report(self, nodes: Seq<NodeView>) -> Seq<DiagnosticView> {
        (if self.has_band() {
            Seq::empty()
        } else {
            seq![DiagnosticView::NoHysteresisBand { name: self.name }]
        }) + sanitizing_report(self.input, nodes, NodeTypeLight::Target)
    }

    /// The node that the controller becomes: idle, reading the sensor that
    /// its input names among `nodes`, without a value.
    pub open spec fn node(self, id: Id, nodes: Seq<NodeView>) -> NodeView {
        NodeView {
            id,
            node_type: NodeTypeView::Target(self.sanitized(nodes), self.cache()),
            max_input: NbInput::One,
            inputs: sanitized_inputs(self.input, nodes, NodeTypeLight::Target),
            value: None,
        }
    }

    /// Whether two targets have the same four thresholds.
    pub open spec fn same_thresholds(self, other: TargetView) -> bool {
        &&& self.idle_temp == other.idle_temp
        &&& self.idle_speed == other.idle_speed
        &&& self.load_temp == other.load_temp
        &&& self.load_speed == other.load_speed
    }
}

impl Target {
    /// The four thresholds, each in decimal notation.
    pub fn cache(&self) -> (cache: TargetCache)
        ensures
            cache@ == self@.cache(),
    {
        TargetCache {
            idle_temp: to_decimal(self.idle_temp),
            idle_speed: to_decimal(self.idle_speed),
            load_temp: to_decimal(self.load_temp),
            load_speed: to_decimal(self.load_speed),
        }
    }

    /// Whether the drop-out threshold lies below the trip threshold.
    pub fn has_band(&self) -> (has_band: bool)
        ensures
            has_band == self@.has_band(),
    {
        self.load_temp < self.idle_temp
    }

    /// One tick of the controller. Never fails.
    ///
    /// | state      | condition             | next state | speed        |
    /// |------------|-----------------------|------------|--------------|
    /// | under load | `value < load_temp`   | idle       | `idle_speed` |
    /// | under load | `value >= load_temp`  | under load | `load_speed` |
    /// | idle       | `value > idle_temp`   | under load | `load_speed` |
    /// | idle       | `value <= idle_temp`  | idle       | `idle_speed` |
    pub fn update(&mut self, value: Value) -> (speed: Result<Value, UpdateError>)
        ensures
            speed == Ok::<Value, UpdateError>(old(self)@.speed(value)),
            final(self)@ == old(self)@.step(value),
    {
        if self.idle_has_been_reatch {
            if value < self.load_temp as Value {
                self.idle_has_been_reatch = false;
                return Ok(self.idle_speed as Value);
            }
            return Ok(self.load_speed as Value);
        }
        if value > self.idle_temp as Value {
            self.idle_has_been_reatch = true;
            return Ok(self.load_speed as Value);
        }
        Ok(self.idle_speed as Value)
    }

    /// Makes the node of this controller, under the next identifier.
    ///
    /// The node starts idle, whatever state the definition held. Its input
    /// is the first sensor among `nodes` that has the name that the
    /// definition gives; where there is none, the input is dropped and
    /// reported, and the node is invalid. Thresholds that leave no band are
    /// reported and kept.
    pub fn to_node(
        self,
        id_generator: &mut IdGenerator,
        nodes: &Nodes,
        _hardware: &Hardware,
        diagnostics: &mut Vec<Diagnostic>,
    ) -> (node: Node)
        requires
            old(id_generator).last() < Id::MAX,
        ensures
            final(id_generator).last() == old(id_generator).last() + 1,
            node@ == self@.node((old(id_generator).last() + 1) as Id, node_views(nodes@)),
            diagnostic_views(final(diagnostics)@) == diagnostic_views(old(diagnostics)@)
                + self@.report(node_views(nodes@)),
    {
        let mut target = self;
        target.idle_has_been_reatch = false;
        if !target.has_band() {
            report(diagnostics, Diagnostic::NoHysteresisBand { name: target.name.clone() });
        }
        let inputs = sanitize_inputs(&mut target, nodes, NodeTypeLight::Target, diagnostics);
        let cache = target.cache();
        Node::new(id_generator, NodeType::Target(target, cache), inputs)
    }
}

impl Inputs for Target {
    open spec fn input(&self) -> Option<Seq<char>> {
        self@.input
    }

    open spec fn without_input(self) -> Target {
        Target { input: None, ..self }
    }

    fn clear_inputs(&mut self) {
        self.input = None;
    }

    fn get_inputs(&self) -> Vec<&String> {
        match &self.input {
            Some(input) => vec![input],
            None => Vec::new(),
        }
    }
}

impl IsValid for Target {
    open spec fn valid(&self) -> bool {
        self@.valid()
    }

    fn is_valid(&self) -> bool {
        self.input.is_some()
    }
}

/// With the drop-out threshold below the trip threshold the controller
/// keeps its state while the input lies between the two: a value above
/// `idle_temp` puts it under load, a value below `load_temp` makes it idle,
/// and any other value changes nothing.
pub proof fn lemma_hysteresis(target: TargetView, value: Value)
    requires
        target.has_band(),
    ensures
        value > target.idle_temp ==> target.under_load_after(value),
        value < target.load_temp ==> !target.under_load_after(value),
        target.load_temp <= value <= target.idle_temp ==> target.under_load_after(value)
            == target.idle_has_been_reatch,
{
}

/// An idle controller whose input rises above `idle_temp` and then falls
/// below `load_temp` asks for `load_speed` and then for `idle_speed`, and is
/// idle again afterwards.
pub proof fn lemma_rise_then_fall(target: TargetView, high: Value, low: Value)
    requires
        target.has_band(),
        !target.idle_has_been_reatch,
        high > target.idle_temp,
        low < target.load_temp,
    ensures
        target.speeds(seq![high, low]) == seq![
            target.load_speed as Value,
            target.idle_speed as Value,
        ],
        target.step(high).idle_has_been_reatch,
        target.run(seq![high, low]) == target,
{
    reveal_with_fuel(TargetView::run, 3);
}

/// With a band between the thresholds, the state after any run of values
/// is decided by the last value that lay outside the band: under load if it
/// lay above `idle_temp`, idle if it lay below `load_temp`.
pub proof fn lemma_last_crossing(target: TargetView, values: Seq<Value>, i: int)
    requires
        target.has_band(),
        0 <= i < values.len(),
        values[i] > target.idle_temp || values[i] < target.load_temp,
        forall|j: int|
            i < j < values.len() ==> target.load_temp <= #[trigger] values[j] <= target.idle_temp,
    ensures
        target.run(values).idle_has_been_reatch == (values[i] > target.idle_temp),
    decreases values.len(),
{
    let earlier = target.run(values.drop_last());
    lemma_run_keeps_thresholds(target, values.drop_last());
    lemma_hysteresis(earlier, values.last());
    if i < values.len() - 1 {
        assert forall|j: int| i < j < values.drop_last().len() implies target.load_temp
            <= #[trigger] values.drop_last()[j] <= target.idle_temp by {}
        lemma_last_crossing(target, values.drop_last(), i);
    }
}

/// With a band between the thresholds, values that all lie inside the band
/// leave the state as it was.
pub proof fn lemma_band_keeps_state(target: TargetView, values: Seq<Value>)
    requires
        target.has_band(),
        forall|j: int|
            0 <= j < values.len() ==> target.load_temp <= #[trigger] values[j] <= target.idle_temp,
    ensures
        target.run(values) == target,
    decreases values.len(),
{
    if values.len() > 0 {
        assert forall|j: int| 0 <= j < values.drop_last().len() implies target.load_temp
            <= #[trigger] values.drop_last()[j] <= target.idle_temp by {}
        lemma_band_keeps_state(target, values.drop_last());
    }
}

/// A tick that leaves the state as it was asks for the same speed when it is
/// repeated with the same value.
pub proof fn lemma_same_state_same_speed(target: TargetView, value: Value)
    requires
        target.step(value).idle_has_been_reatch == target.idle_has_been_reatch,
    ensures
        target.step(value) == target,
        target.step(value).speed(value) == target.speed(value),
{
}

/// Where the drop-out threshold is not above the trip threshold, a second
/// tick with the same value changes neither the state nor the speed.
pub proof fn lemma_repeated_tick(target: TargetView, value: Value)
    requires
        target.load_temp <= target.idle_temp,
    ensures
        target.step(value).step(value) == target.step(value),
        target.step(value).speed(value) == target.speed(value),
{
}

/// A value strictly between the two thresholds, where the trip threshold is
/// the lower one, flips the state at every tick.
pub proof fn lemma_chatter(target: TargetView, value: Value)
    requires
        target.idle_temp < value < target.load_temp,
    ensures
        target.under_load_after(value) == !target.idle_has_been_reatch,
{
}

/// A tick changes nothing but the state.
pub proof fn lemma_step_keeps_thresholds(target: TargetView, value: Value)
    ensures
        target.step(value).same_thresholds(target),
        target.step(value).name == target.name,
        target.step(value).input == target.input,
{
}

/// Any number of ticks changes nothing but the state.
pub proof fn lemma_run_keeps_thresholds(target: TargetView, values: Seq<Value>)
    ensures
        target.run(values).same_thresholds(target),
        target.run(values).name == target.name,
        target.run(values).input == target.input,
    decreases values.len(),
{
    if values.len() > 0 {
        lemma_run_keeps_thresholds(target, values.drop_last());
    }
}

/// A controller that is built, run for a while and built again, among
/// whatever nodes, has the name and the thresholds that it started with, as
/// numbers and as text, and is idle.
pub proof fn lemma_rebuild(
    target: TargetView,
    first: Seq<NodeView>,
    values: Seq<Value>,
    second: Seq<NodeView>,
)
    ensures
        ({
            let ran = target.sanitized(first).run(values);
            let rebuilt = ran.sanitized(second);
            &&& rebuilt.same_thresholds(target)
            &&& rebuilt.name == target.name
            &&& !rebuilt.idle_has_been_reatch
            &&& ran.cache() == target.cache()
            &&& rebuilt.cache() == target.cache()
        }),
{
    lemma_run_keeps_thresholds(target.sanitized(first), values);
}

/// The text of the thresholds determines the thresholds.
pub proof fn lemma_cache_determines_thresholds(a: TargetView, b: TargetView)
    requires
        a.cache() == b.cache(),
    ensures
        a.same_thresholds(b),
{
    lemma_decimal_injective(a.idle_temp as nat, b.idle_temp as nat);
    lemma_decimal_injective(a.idle_speed as nat, b.idle_speed as nat);
    lemma_decimal_injective(a.load_temp as nat, b.load_temp as nat);
    lemma_decimal_injective(a.load_speed as nat, b.load_speed as nat);
}

} // verus!
