//! Evaluation of the graph, once per tick.

use crate::app_graph::{graph_wf, reads_earlier, AppGraph};
use crate::builder::{build, lemma_build_node, lemma_build_wf};
use crate::config::target::lemma_repeated_tick;
use crate::config::Definition;
use crate::hardware::{Hardware, HardwareType, HardwareView, Value};
use crate::id::Id;
use crate::node::{node_views, IsValid, Node, NodeType, NodeTypeView, NodeView, Nodes};
use vstd::prelude::*;

verus! {

/// Why a node has no value this tick.
#[derive(Clone, Copy, Debug, PartialEq, Eq, Structural)]
pub enum UpdateError {
    /// The node lacks a hardware binding or an input.
    NodeIsInvalid,
    /// The hardware has no reading for the sensor.
    ValueIsNone,
    /// The node that feeds this one has no value.
    NoInputData,
}

/// A speed to write to a control.
#[derive(Clone, Copy, Debug, PartialEq, Eq, Structural)]
pub struct Command {
    /// The internal index of the control.
    pub internal_index: usize,
    pub value: Value,
}

impl NodeView {
    /// What the node computes in a tick, given the value of the node it
    /// reads.
    ///
    /// A sensor gives the reading of its hardware. A controller gives the
    /// speed that its thresholds ask for at the value it reads. An actuator
    /// gives the value it reads. An invalid node gives nothing, and neither
    /// does a node that has nothing to read.
    pub open spec fn evaluation(self, input: Option<Value>, hardware: HardwareView) -> Result<
        Value,
        UpdateError,
    > {
        if !self.node_type.valid() {
            Err(UpdateError::NodeIsInvalid)
        } else {
            match self.node_type {
                NodeTypeView::Temp(temp) => match hardware.value(
                    temp.hardware_internal_index->0,
                ) {
                    Some(value) => Ok(value),
                    None => Err(UpdateError::ValueIsNone),
                },
                NodeTypeView::Target(target, _) => match input {
                    Some(value) => Ok(target.speed(value)),
                    None => Err(UpdateError::NoInputData),
                },
                NodeTypeView::Control(_) => match input {
                    Some(value) => Ok(value),
                    None => Err(UpdateError::NoInputData),
                },
            }
        }
    }

    /// The payload after a tick: a valid controller that read a value has
    /// taken its step; nothing else changes.
    pub open spec fn payload_after(self, input: Option<Value>) -> NodeTypeView {
        match (self.node_type, input) {
            (NodeTypeView::Target(target, cache), Some(value)) => if target.valid() {
                NodeTypeView::Target(target.step(value), cache)
            } else {
                self.node_type
            },
            _ => self.node_type,
        }
    }

    /// The node after a tick: it holds what it computed, or nothing.
    pub open spec fn evaluated(self, input: Option<Value>, hardware: HardwareView) -> NodeView {
        NodeView {
            node_type: self.payload_after(input),
            value: match self.evaluation(input, hardware) {
                Ok(value) => Some(value),
                Err(_) => None,
            },
            ..self
        }
    }
}

impl Node {
    /// Evaluates the node for one tick, given the value of the node it
    /// reads, and keeps the result as its value.
    pub fn update(&mut self, input: Option<Value>, hardware: &Hardware) -> (result: Result<
        Value,
        UpdateError,
    >)
        ensures
            result == old(self)@.evaluation(input, hardware@),
            final(self)@ == old(self)@.evaluated(input, hardware@),
    {
        let result = if !self.node_type.is_valid() {
            Err(UpdateError::NodeIsInvalid)
        } else {
            match &mut self.node_type {
                NodeType::Temp(temp) => match temp.hardware_internal_index {
                    Some(index) => match hardware.get_value(index) {
                        Some(value) => Ok(value),
                        None => Err(UpdateError::ValueIsNone),
                    },
                    None => Err(UpdateError::NodeIsInvalid),
                },
                NodeType::Target(target, _) => match input {
                    Some(value) => target.update(value),
                    None => Err(UpdateError::NoInputData),
                },
                NodeType::Control(_) => match input {
                    Some(value) => Ok(value),
                    None => Err(UpdateError::NoInputData),
                },
            }
        };
        self.value = match result {
            Ok(value) => Some(value),
            Err(_) => None,
        };
        result
    }
}

/// The value that node `i` reads: the value of the node that its input
/// names, or nothing where it has no input.
pub open spec fn input_value(nodes: Seq<NodeView>, i: int) -> Option<Value> {
    if nodes[i].inputs.len() > 0 && 1 <= nodes[i].inputs[0] <= nodes.len() {
        nodes[nodes[i].inputs[0] - 1].value
    } else {
        None
    }
}

/// The graph after node `i` has been evaluated.
pub open spec fn tick_node(nodes: Seq<NodeView>, hardware: HardwareView, i: int) -> Seq<NodeView> {
    nodes.update(i, nodes[i].evaluated(input_value(nodes, i), hardware))
}

/// The graph after its first `k` nodes have been evaluated, in their order.
pub open spec fn tick_first(nodes: Seq<NodeView>, hardware: HardwareView, k: nat) -> Seq<NodeView>
    decreases k,
{
    if k == 0 {
        nodes
    } else {
        tick_node(tick_first(nodes, hardware, (k - 1) as nat), hardware, k - 1)
    }
}

/// The graph after a tick: every node has been evaluated, in the order of
/// admission.
pub open spec fn tick_nodes(nodes: Seq<NodeView>, hardware: HardwareView) -> Seq<NodeView> {
    tick_first(nodes, hardware, nodes.len())
}

/// The command that a node gives rise to: an actuator that holds a value
/// asks for that value to be written to its control.
pub open spec fn command(node: NodeView) -> Option<Command> {
    match (node.node_type, node.value) {
        (NodeTypeView::Control(control), Some(value)) => match control.hardware_internal_index {
            Some(internal_index) => Some(Command { internal_index, value }),
            None => None,
        },
        _ => None,
    }
}

/// The commands of the nodes, in the order of the nodes.
pub open spec fn commands(nodes: Seq<NodeView>) -> Seq<Command>
    decreases nodes.len(),
{
    if nodes.len() == 0 {
        Seq::empty()
    } else {
        match command(nodes.last()) {
            Some(command) => commands(nodes.drop_last()).push(command),
            None => commands(nodes.drop_last()),
        }
    }
}

/// Evaluating one node changes no identifier, kind, arity or input, so the
/// graph stays well formed; and it changes no other node.
pub proof fn lemma_tick_node(nodes: Seq<NodeView>, hardware: HardwareView, i: int)
    requires
        graph_wf(nodes),
        0 <= i < nodes.len(),
    ensures
        graph_wf(tick_node(nodes, hardware, i)),
        tick_node(nodes, hardware, i).len() == nodes.len(),
        forall|j: int|
            0 <= j < nodes.len() && j != i ==> #[trigger] tick_node(nodes, hardware, i)[j]
                == nodes[j],
{
    let after = tick_node(nodes, hardware, i);
    assert forall|j: int, k: int|
        0 <= j < after.len() && 0 <= k < after[j].inputs.len() implies reads_earlier(
        after,
        j,
        k,
    ) by {
        assert(reads_earlier(nodes, j, k));
    }
}

/// Evaluating the first `k` nodes keeps the graph well formed and leaves
/// the others as they were.
pub proof fn lemma_tick_first(nodes: Seq<NodeView>, hardware: HardwareView, k: nat)
    requires
        graph_wf(nodes),
        k <= nodes.len(),
    ensures
        graph_wf(tick_first(nodes, hardware, k)),
        tick_first(nodes, hardware, k).len() == nodes.len(),
        forall|j: int|
            k <= j < nodes.len() ==> #[trigger] tick_first(nodes, hardware, k)[j] == nodes[j],
    decreases k,
{
    if k > 0 {
        lemma_tick_first(nodes, hardware, (k - 1) as nat);
        lemma_tick_node(tick_first(nodes, hardware, (k - 1) as nat), hardware, k - 1);
    }
}

/// Once the first `k` nodes have been evaluated, each of them holds what it
/// computes from the value that the node it reads holds after the tick: a
/// node is evaluated after the node it reads, and not again.
pub proof fn lemma_tick_first_reads_fresh(
    nodes: Seq<NodeView>,
    hardware: HardwareView,
    k: nat,
    i: int,
)
    requires
        graph_wf(nodes),
        k <= nodes.len(),
        0 <= i < k,
    ensures
        tick_first(nodes, hardware, k)[i] == nodes[i].evaluated(
            input_value(tick_first(nodes, hardware, k), i),
            hardware,
        ),
    decreases k,
{
    // Evaluating node `k - 1` changes that node alone, and what node `i`
    // reads stands before node `i`.
    let earlier = tick_first(nodes, hardware, (k - 1) as nat);
    lemma_tick_first(nodes, hardware, (k - 1) as nat);
    lemma_tick_node(earlier, hardware, k - 1);
    if earlier[i].inputs.len() > 0 {
        assert(reads_earlier(earlier, i, 0));
    }
    if i < k - 1 {
        lemma_tick_first_reads_fresh(nodes, hardware, (k - 1) as nat, i);
    }
}

/// After a tick every node holds what it computes from the value that the
/// node it reads holds after that same tick.
pub proof fn lemma_tick_reads_fresh(nodes: Seq<NodeView>, hardware: HardwareView, i: int)
    requires
        graph_wf(nodes),
        0 <= i < nodes.len(),
    ensures
        tick_nodes(nodes, hardware)[i] == nodes[i].evaluated(
            input_value(tick_nodes(nodes, hardware), i),
            hardware,
        ),
{
    lemma_tick_first_reads_fresh(nodes, hardware, nodes.len(), i);
}

/// A tick changes the values of the nodes and the states of the
/// controllers, and nothing else: the graph stays well formed, and every
/// controller keeps its name, its input and its thresholds.
pub proof fn lemma_tick_keeps_graph(nodes: Seq<NodeView>, hardware: HardwareView, i: int)
    requires
        graph_wf(nodes),
        0 <= i < nodes.len(),
    ensures
        graph_wf(tick_nodes(nodes, hardware)),
        tick_nodes(nodes, hardware).len() == nodes.len(),
        tick_nodes(nodes, hardware)[i].id == nodes[i].id,
        tick_nodes(nodes, hardware)[i].inputs == nodes[i].inputs,
        tick_nodes(nodes, hardware)[i].max_input == nodes[i].max_input,
        match nodes[i].node_type {
            NodeTypeView::Target(target, cache) => {
                &&& tick_nodes(nodes, hardware)[i].node_type matches NodeTypeView::Target(
                    after,
                    cache_after,
                )
                &&& after.same_thresholds(target)
                &&& after.name == target.name
                &&& after.input == target.input
                &&& cache_after == cache
            },
            other => tick_nodes(nodes, hardware)[i].node_type == other,
        },
{
    lemma_tick_first(nodes, hardware, nodes.len());
    lemma_tick_reads_fresh(nodes, hardware, i);
}

/// Every controller has its drop-out threshold at or below its trip
/// threshold.
pub open spec fn thresholds_in_order(nodes: Seq<NodeView>) -> bool {
    forall|i: int|
        0 <= i < nodes.len() ==> ((#[trigger] nodes[i]).node_type matches NodeTypeView::Target(
            target,
            _,
        ) ==> target.load_temp <= target.idle_temp)
}

/// A graph that has been evaluated stays as it is when its first `k` nodes
/// are evaluated again against the same inventory, where the thresholds of
/// its controllers are in order.
pub proof fn lemma_tick_first_settled(nodes: Seq<NodeView>, hardware: HardwareView, k: nat)
    requires
        graph_wf(nodes),
        thresholds_in_order(nodes),
        k <= nodes.len(),
    ensures
        tick_first(tick_nodes(nodes, hardware), hardware, k) == tick_nodes(nodes, hardware),
    decreases k,
{
    if k > 0 {
        let settled = tick_nodes(nodes, hardware);
        let at = k - 1;
        let input = input_value(settled, at);
        let once = nodes[at].evaluated(input, hardware);
        lemma_tick_first_settled(nodes, hardware, at as nat);
        lemma_tick_first(nodes, hardware, nodes.len());
        lemma_tick_reads_fresh(nodes, hardware, at);
        assert(settled[at] == once);
        // Evaluated a second time on the same input, the node is as after
        // the first.
        assert(once.evaluated(input, hardware) == once) by {
            if let NodeTypeView::Target(target, _) = nodes[at].node_type {
                if let Some(value) = input {
                    lemma_repeated_tick(target, value);
                }
            }
        }
        assert(tick_node(settled, hardware, at) =~= settled);
    }
}

/// A second tick against the same inventory changes nothing, neither a
/// state nor a value nor, therefore, a command, where the thresholds of the
/// controllers are in order.
pub proof fn lemma_tick_twice(nodes: Seq<NodeView>, hardware: HardwareView)
    requires
        graph_wf(nodes),
        thresholds_in_order(nodes),
    ensures
        tick_nodes(tick_nodes(nodes, hardware), hardware) == tick_nodes(nodes, hardware),
{
    lemma_tick_first(nodes, hardware, nodes.len());
    lemma_tick_first_settled(nodes, hardware, nodes.len());
}

/// After a tick an actuator gives rise to a command exactly when it is
/// valid and the controller it reads holds a value after that tick; the
/// command carries that value to the actuator's control.
pub proof fn lemma_tick_command(nodes: Seq<NodeView>, hardware: HardwareView, i: int)
    requires
        graph_wf(nodes),
        0 <= i < nodes.len(),
        nodes[i].node_type is Control,
    ensures
        ({
            let after = tick_nodes(nodes, hardware);
            let control = nodes[i].node_type->Control_0;
            command(after[i]) == if control.valid() && input_value(after, i) is Some {
                Some(
                    Command {
                        internal_index: control.hardware_internal_index->0,
                        value: input_value(after, i)->0,
                    },
                )
            } else {
                None
            }
        }),
{
    lemma_tick_reads_fresh(nodes, hardware, i);
}

/// A sensor whose hardware the inventory lacks stops nothing but itself:
/// its node is invalid and has no value after a tick, while the node of
/// every sensor that the inventory has is valid and holds the reading of its
/// hardware.
pub proof fn lemma_partial_failure(
    definitions: Seq<Definition>,
    hardware: HardwareView,
    missing: int,
    other: int,
)
    requires
        definitions.len() <= Id::MAX,
        0 <= missing < definitions.len(),
        definitions[missing] matches Definition::Temp(temp) && temp.hardware_id matches Some(id)
            && hardware.internal_index(id, HardwareType::Temp) is None,
        0 <= other < definitions.len(),
        definitions[other] matches Definition::Temp(temp) && temp.hardware_id matches Some(id)
            && hardware.internal_index(id, HardwareType::Temp) is Some,
    ensures
        ({
            let nodes = build(definitions, hardware).nodes;
            let after = tick_nodes(nodes, hardware);
            let id = definitions[other]->Temp_0.hardware_id->0;
            &&& !nodes[missing].node_type.valid()
            &&& after[missing].value is None
            &&& nodes[other].node_type.valid()
            &&& after[other].value == hardware.value(
                hardware.internal_index(id, HardwareType::Temp)->0,
            )
        }),
{
    let nodes = build(definitions, hardware).nodes;
    lemma_build_wf(definitions, hardware);
    lemma_build_node(definitions, hardware, missing);
    lemma_build_node(definitions, hardware, other);
    lemma_tick_reads_fresh(nodes, hardware, missing);
    lemma_tick_reads_fresh(nodes, hardware, other);
}

impl AppGraph {
    /// One tick: evaluates every node, in the order of admission, and gives
    /// the commands of the actuators that hold a value afterwards.
    ///
    /// A node is evaluated after the node it reads, so it sees that node's
    /// value of this tick.
    pub fn tick(&mut self, hardware: &Hardware) -> (commands: Vec<Command>)
        ensures
            final(self)@ == tick_nodes(old(self)@, hardware@),
            commands@ == self::commands(final(self)@),
            graph_wf(final(self)@),
    {
        proof {
            use_type_invariant(&*self);
        }
        let ghost before = node_views(self.nodes@);
        // The nodes leave the graph while they change, and come back at the
        // end.
        let mut nodes: Nodes = Vec::new();
        std::mem::swap(&mut self.nodes, &mut nodes);

        let mut i: usize = 0;
        while i < nodes.len()
            invariant
                i <= nodes@.len() == before.len(),
                graph_wf(before),
                node_views(nodes@) == tick_first(before, hardware@, i as nat),
            decreases nodes.len() - i,
        {
            let ghost current = node_views(nodes@);
            proof {
                lemma_tick_first(before, hardware@, i as nat);
                if current[i as int].inputs.len() > 0 {
                    assert(reads_earlier(current, i as int, 0));
                }
            }
            let input = if nodes[i].inputs.len() > 0 {
                let id = nodes[i].inputs[0];
                let read = &nodes[(id - 1) as usize];
                read.value
            } else {
                None
            };
            let node = &mut nodes[i];
            let _ = node.update(input, hardware);
            i += 1;
        }

        let ghost after = node_views(nodes@);
        proof {
            lemma_tick_first(before, hardware@, before.len());
        }
        let mut commands: Vec<Command> = Vec::new();
        let mut j: usize = 0;
        while j < nodes.len()
            invariant
                j <= nodes@.len(),
                after == node_views(nodes@),
                commands@ == self::commands(after.take(j as int)),
            decreases nodes.len() - j,
        {
            proof {
                assert(after.take(j + 1).drop_last() =~= after.take(j as int));
            }
            let node = &nodes[j];
            if let NodeType::Control(control) = &node.node_type {
                if let Some(value) = node.value {
                    if let Some(internal_index) = control.hardware_internal_index {
                        commands.push(Command { internal_index, value });
                    }
                }
            }
            j += 1;
        }
        assert(after.take(after.len() as int) =~= after);
        self.nodes = nodes;
        commands
    }
}

} // verus!
