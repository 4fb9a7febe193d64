//! The graph: its nodes in the order of admission, and what holds of them.

use crate::builder::{
    build, default_node, default_nodes, lemma_build_len, lemma_build_step, lemma_build_wf,
};
use crate::config::control::Control;
use crate::config::target::Target;
use crate::config::temp::Temp;
use crate::config::{config_order, Config};
use crate::diagnostic::{diagnostic_views, Diagnostic};
use crate::hardware::Hardware;
use crate::id::{Id, IdGenerator};
use crate::node::{node_views, Node, NodeType, NodeView, Nodes};
use vstd::prelude::*;

verus! {

/// What a graph must satisfy, whatever it was built from.
///
/// Identifiers count up from 1 in the order of admission, so no two nodes
/// share one. Every input is the identifier of a node admitted earlier, of a
/// kind that the reading node may read. Every node has the arity of its
/// kind and no more inputs than that. Every sensor and every actuator has an
/// internal index exactly when it has a hardware id.
pub open spec fn graph_wf(nodes: Seq<NodeView>) -> bool {
    &&& nodes.len() <= Id::MAX
    &&& forall|i: int| 0 <= i < nodes.len() ==> (#[trigger] nodes[i]).id == i + 1
    &&& forall|i: int| 0 <= i < nodes.len() ==> (#[trigger] nodes[i]).wf()
    &&& forall|i: int| 0 <= i < nodes.len() ==> (#[trigger] nodes[i]).node_type.consistent()
    &&& forall|i: int, k: int|
        0 <= i < nodes.len() && 0 <= k < nodes[i].inputs.len() ==> reads_earlier(nodes, i, k)
}

/// Input `k` of node `i` is the identifier of a node that stands before
/// node `i` and has a kind that node `i` may read.
pub open spec fn reads_earlier(nodes: Seq<NodeView>, i: int, k: int) -> bool {
    let input = nodes[i].inputs[k];
    &&& 1 <= input < nodes[i].id
    &&& nodes[i].node_type.to_light().allowed_dep(nodes[input - 1].node_type.to_light())
}

/// Node `from` has node `to` among its inputs.
pub open spec fn reads(nodes: Seq<NodeView>, from: Id, to: Id) -> bool {
    1 <= from <= nodes.len() && nodes[from - 1].inputs.contains(to)
}

/// Node `to` is reached from node `from` by following inputs `steps` times.
pub open spec fn reaches(nodes: Seq<NodeView>, from: Id, to: Id, steps: nat) -> bool
    decreases steps,
{
    if steps == 0 {
        from == to
    } else {
        exists|via: Id| reads(nodes, from, via) && reaches(nodes, via, to, (steps - 1) as nat)
    }
}

/// In a well-formed graph, following inputs leads to smaller identifiers
/// only.
pub proof fn lemma_reaches_earlier(nodes: Seq<NodeView>, from: Id, to: Id, steps: nat)
    requires
        graph_wf(nodes),
        reaches(nodes, from, to, steps),
    ensures
        steps == 0 ==> to == from,
        steps > 0 ==> to < from,
    decreases steps,
{
    if steps > 0 {
        let via = choose|via: Id|
            reads(nodes, from, via) && reaches(nodes, via, to, (steps - 1) as nat);
        let inputs = nodes[from - 1].inputs;
        let k = choose|k: int| 0 <= k < inputs.len() && #[trigger] inputs[k] == via;
        assert(reads_earlier(nodes, from - 1, k));
        lemma_reaches_earlier(nodes, via, to, (steps - 1) as nat);
    }
}

/// A well-formed graph has no cycle: no node is among its own inputs, nor
/// among the inputs of its inputs, and so on.
pub proof fn lemma_acyclic(nodes: Seq<NodeView>, id: Id, steps: nat)
    requires
        graph_wf(nodes),
        steps >= 1,
    ensures
        !reaches(nodes, id, id, steps),
{
    if reaches(nodes, id, id, steps) {
        lemma_reaches_earlier(nodes, id, id, steps);
    }
}

/// In a well-formed graph no two nodes have the same identifier.
pub proof fn lemma_ids_distinct(nodes: Seq<NodeView>, i: int, j: int)
    requires
        graph_wf(nodes),
        0 <= i < nodes.len(),
        0 <= j < nodes.len(),
        i != j,
    ensures
        nodes[i].id != nodes[j].id,
{
}

/// The nodes of one build, in the order in which they were admitted.
#[derive(Debug)]
pub struct AppGraph {
    pub(crate) nodes: Nodes,
}

impl View for AppGraph {
    type V = Seq<NodeView>;

    open(crate) spec fn view(&self) -> Seq<NodeView> {
        node_views(self.nodes@)
    }
}

impl AppGraph {
    /// Every graph is well formed, however it came about.
    #[verifier::type_invariant]
    pub(crate) open(crate) spec fn well_formed(self) -> bool {
        graph_wf(node_views(self.nodes@))
    }

    /// Builds the graph of a configuration.
    ///
    /// The definitions are admitted in the order of
    /// `ConfigView::definitions`, each under the next identifier, each
    /// seeing the nodes admitted before it. A definition that names hardware
    /// or an input that cannot be found still becomes a node, an invalid
    /// one, and the finding is appended to `diagnostics`.
    pub fn from_config(
        config: Config,
        hardware: &Hardware,
        diagnostics: &mut Vec<Diagnostic>,
    ) -> (graph: AppGraph)
        requires
            config.temps@.len() + config.targets@.len() + config.controls@.len() <= Id::MAX,
        ensures
            graph@ == build(config@.definitions(), hardware@).nodes,
            diagnostic_views(final(diagnostics)@) == diagnostic_views(old(diagnostics)@) + build(
                config@.definitions(),
                hardware@,
            ).diagnostics,
            graph_wf(graph@),
    {
        let ghost definitions = config@.definitions();
        let ghost reported = diagnostic_views(diagnostics@);
        let ghost temps = config@.temps;
        let ghost targets = config@.targets;
        let ghost controls = config@.controls;
        let mut id_generator = IdGenerator::new();
        let mut nodes: Nodes = Vec::new();
        let Config { temps: config_temps, targets: config_targets, controls: config_controls } =
            config;

        for temp in it: config_temps.into_iter()
            invariant
                definitions.len() <= Id::MAX,
                definitions == config_order(temps, targets, controls),
                it.seq().map_values(|temp: Temp| temp@) == temps,
                id_generator.last() == nodes@.len(),
                node_views(nodes@) == build(definitions.take(it.index() as int), hardware@).nodes,
                diagnostic_views(diagnostics@) == reported + build(
                    definitions.take(it.index() as int),
                    hardware@,
                ).diagnostics,
        {
            let ghost k = it.index() as int;
            proof {
                lemma_build_len(definitions.take(k), hardware@);
                lemma_build_step(definitions, hardware@, k);
            }
            let node = temp.to_node(&mut id_generator, hardware, diagnostics);
            nodes.push(node);
        }

        for target in it: config_targets.into_iter()
            invariant
                definitions.len() <= Id::MAX,
                definitions == config_order(temps, targets, controls),
                it.seq().map_values(|target: Target| target@) == targets,
                id_generator.last() == nodes@.len(),
                node_views(nodes@) == build(
                    definitions.take(temps.len() + it.index()),
                    hardware@,
                ).nodes,
                diagnostic_views(diagnostics@) == reported + build(
                    definitions.take(temps.len() + it.index()),
                    hardware@,
                ).diagnostics,
        {
            let ghost k = temps.len() + it.index();
            proof {
                lemma_build_len(definitions.take(k), hardware@);
                lemma_build_step(definitions, hardware@, k);
            }
            let node = target.to_node(&mut id_generator, &nodes, hardware, diagnostics);
            nodes.push(node);
        }

        for control in it: config_controls.into_iter()
            invariant
                definitions.len() <= Id::MAX,
                definitions == config_order(temps, targets, controls),
                it.seq().map_values(|control: Control| control@) == controls,
                id_generator.last() == nodes@.len(),
                node_views(nodes@) == build(
                    definitions.take(temps.len() + targets.len() + it.index()),
                    hardware@,
                ).nodes,
                diagnostic_views(diagnostics@) == reported + build(
                    definitions.take(temps.len() + targets.len() + it.index()),
                    hardware@,
                ).diagnostics,
        {
            let ghost k = temps.len() + targets.len() + it.index();
            proof {
                lemma_build_len(definitions.take(k), hardware@);
                lemma_build_step(definitions, hardware@, k);
            }
            let node = control.to_node(&mut id_generator, &nodes, hardware, diagnostics);
            nodes.push(node);
        }
        proof {
            assert(definitions.take(definitions.len() as int) =~= definitions);
            lemma_build_wf(definitions, hardware@);
        }
        AppGraph { nodes }
    }

    /// Builds the graph of an inventory for which there is no configuration:
    /// one sensor node for each sensor, and nothing else.
    pub fn default(hardware: &Hardware) -> (graph: AppGraph)
        requires
            hardware.temps@.len() <= Id::MAX,
        ensures
            graph@ == default_nodes(hardware@),
            graph_wf(graph@),
    {
        let mut id_generator = IdGenerator::new();
        let mut nodes: Nodes = Vec::new();
        let mut i: usize = 0;
        while i < hardware.temps.len()
            invariant
                i <= hardware.temps@.len() <= Id::MAX,
                id_generator.last() == i,
                nodes@.len() == i,
                forall|j: int|
                    0 <= j < i ==> (#[trigger] nodes@[j])@ == default_node(
                        hardware@.temps[j],
                        (j + 1) as Id,
                    ),
            decreases hardware.temps.len() - i,
        {
            let item = &hardware.temps[i];
            let temp = Temp {
                name: item.name.clone(),
                hardware_id: Some(item.hardware_id.clone()),
                hardware_internal_index: Some(item.internal_index),
            };
            let node = Node::new(&mut id_generator, NodeType::Temp(temp), Vec::new());
            nodes.push(node);
            i += 1;
        }
        AppGraph { nodes }
    }

    /// The nodes, in the order in which they were admitted: the node with
    /// the identifier `id` stands at index `id - 1`.
    pub fn nodes(&self) -> (nodes: &Nodes)
        ensures
            node_views(nodes@) == self@,
            graph_wf(self@),
    {
        proof {
            use_type_invariant(self);
        }
        &self.nodes
    }

    /// The node with the given identifier, if there is one.
    pub fn get(&self, id: Id) -> (node: Option<&Node>)
        ensures
            match node {
                Some(node) => 1 <= id <= self@.len() && node@ == self@[id - 1] && node.id == id,
                None => !(1 <= id <= self@.len()),
            },
    {
        proof {
            use_type_invariant(self);
        }
        if 1 <= id && id as usize <= self.nodes.len() {
            let node = &self.nodes[(id - 1) as usize];
            Some(node)
        } else {
            None
        }
    }
}

} // verus!
