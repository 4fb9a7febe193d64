//! What a build makes of a configuration, and what holds of every build.

use crate::app_graph::{graph_wf, lemma_acyclic, reaches, reads_earlier};
use crate::config::temp::TempView;
use crate::config::Definition;
use crate::diagnostic::DiagnosticView;
use crate::hardware::{HardwareItemView, HardwareType, HardwareView};
use crate::id::Id;
use crate::node::{find_input, is_input, NbInput, NodeTypeLight, NodeTypeView, NodeView};
use crate::search::{first_index, lemma_first_index};
use vstd::prelude::*;

verus! {

/// A build under way: the nodes admitted so far and what was reported.
pub struct Built {
    pub nodes: Seq<NodeView>,
    pub diagnostics: Seq<DiagnosticView>,
}

/// Admits one definition: its node gets the next identifier and sees the
/// nodes admitted before it.
pub open spec fn extend(built: Built, definition: Definition, hardware: HardwareView) -> Built {
    let id = (built.nodes.len() + 1) as Id;
    match definition {
        Definition::Temp(temp) => Built {
            nodes: built.nodes.push(temp.node(id, hardware)),
            diagnostics: built.diagnostics + temp.report(hardware),
        },
        Definition::Target(target) => Built {
            nodes: built.nodes.push(target.node(id, built.nodes)),
            diagnostics: built.diagnostics + target.report(built.nodes),
        },
        Definition::Control(control) => Built {
            nodes: built.nodes.push(control.node(id, built.nodes, hardware)),
            diagnostics: built.diagnostics + control.report(built.nodes, hardware),
        },
    }
}

/// Admits the definitions one after the other, starting from nothing.
pub open spec fn build(definitions: Seq<Definition>, hardware: HardwareView) -> Built
    decreases definitions.len(),
{
    if definitions.len() == 0 {
        Built { nodes: Seq::empty(), diagnostics: Seq::empty() }
    } else {
        extend(build(definitions.drop_last(), hardware), definitions.last(), hardware)
    }
}

/// The node of a sensor that no configuration defines: named and bound as
/// the inventory has it.
pub open spec fn default_node(item: HardwareItemView, id: Id) -> NodeView {
    NodeView {
        id,
        node_type: NodeTypeView::Temp(
            TempView {
                name: item.name,
                hardware_id: Some(item.hardware_id),
                hardware_internal_index: Some(item.internal_index),
            },
        ),
        max_input: NbInput::Zero,
        inputs: Seq::empty(),
        value: None,
    }
}

/// The graph of an inventory without a configuration: one node for each
/// sensor, in the order of the inventory.
pub open spec fn default_nodes(hardware: HardwareView) -> Seq<NodeView> {
    Seq::new(hardware.temps.len(), |i: int| default_node(hardware.temps[i], (i + 1) as Id))
}

/// Admitting one definition more is one step of `extend`.
pub proof fn lemma_build_step(definitions: Seq<Definition>, hardware: HardwareView, k: int)
    requires
        0 <= k < definitions.len(),
    ensures
        build(definitions.take(k + 1), hardware) == extend(
            build(definitions.take(k), hardware),
            definitions[k],
            hardware,
        ),
{
    assert(definitions.take(k + 1).drop_last() =~= definitions.take(k));
}

/// Every definition becomes one node.
pub proof fn lemma_build_len(definitions: Seq<Definition>, hardware: HardwareView)
    ensures
        build(definitions, hardware).nodes.len() == definitions.len(),
    decreases definitions.len(),
{
    if definitions.len() > 0 {
        lemma_build_len(definitions.drop_last(), hardware);
    }
}

/// The node that definition `k` becomes is made from that definition and
/// the nodes of the definitions before it, which later definitions do not
/// change.
pub proof fn lemma_build_node(definitions: Seq<Definition>, hardware: HardwareView, k: int)
    requires
        0 <= k < definitions.len(),
    ensures
        build(definitions, hardware).nodes.len() == definitions.len(),
        build(definitions, hardware).nodes.take(k) == build(definitions.take(k), hardware).nodes,
        build(definitions, hardware).nodes[k] == extend(
            build(definitions.take(k), hardware),
            definitions[k],
            hardware,
        ).nodes.last(),
    decreases definitions.len(),
{
    let shorter = definitions.drop_last();
    lemma_build_len(definitions, hardware);
    lemma_build_len(shorter, hardware);
    if k < definitions.len() - 1 {
        lemma_build_node(shorter, hardware, k);
        assert(shorter.take(k) =~= definitions.take(k));
    }
}

/// Every node has the name and the kind of its definition.
pub proof fn lemma_build_names(definitions: Seq<Definition>, hardware: HardwareView, k: int)
    requires
        0 <= k < definitions.len(),
    ensures
        build(definitions, hardware).nodes[k].node_type.name() == definitions[k].name(),
        build(definitions, hardware).nodes[k].node_type.to_light() == definitions[k].to_light(),
{
    lemma_build_node(definitions, hardware, k);
}

/// An input that resolves among the nodes of a graph resolves to the
/// identifier of one of them, of a kind that the reading node may read.
pub proof fn lemma_find_input_earlier(
    nodes: Seq<NodeView>,
    name: Seq<char>,
    node_type: NodeTypeLight,
)
    requires
        graph_wf(nodes),
    ensures
        find_input(nodes, name, node_type) matches Some(id) ==> {
            &&& 1 <= id <= nodes.len()
            &&& is_input(nodes[id - 1], name, node_type)
        },
{
    lemma_first_index(nodes, |node: NodeView| is_input(node, name, node_type));
}

/// One step of a build keeps the graph well formed.
pub proof fn lemma_extend_wf(built: Built, definition: Definition, hardware: HardwareView)
    requires
        graph_wf(built.nodes),
        built.nodes.len() < Id::MAX,
    ensures
        graph_wf(extend(built, definition, hardware).nodes),
        extend(built, definition, hardware).nodes.len() == built.nodes.len() + 1,
{
    let before = built.nodes;
    let after = extend(built, definition, hardware).nodes;
    let n = before.len() as int;
    match definition {
        Definition::Temp(temp) => {},
        Definition::Target(target) => {
            if let Some(name) = target.input {
                lemma_find_input_earlier(before, name, NodeTypeLight::Target);
            }
        },
        Definition::Control(control) => {
            if let Some(name) = control.input {
                lemma_find_input_earlier(before, name, NodeTypeLight::Control);
            }
        },
    }
    assert forall|i: int, k: int|
        0 <= i < after.len() && 0 <= k < after[i].inputs.len() implies reads_earlier(
        after,
        i,
        k,
    ) by {
        if i < n {
            assert(reads_earlier(before, i, k));
        }
    }
}

/// Whatever the definitions and the inventory, a build gives a well-formed
/// graph.
pub proof fn lemma_build_wf(definitions: Seq<Definition>, hardware: HardwareView)
    requires
        definitions.len() <= Id::MAX,
    ensures
        graph_wf(build(definitions, hardware).nodes),
    decreases definitions.len(),
{
    if definitions.len() > 0 {
        lemma_build_wf(definitions.drop_last(), hardware);
        lemma_build_len(definitions.drop_last(), hardware);
        lemma_extend_wf(build(definitions.drop_last(), hardware), definitions.last(), hardware);
    }
}

/// A build of `n` definitions, of whatever kinds, gives `n` nodes with `n`
/// different identifiers.
pub proof fn lemma_build_ids(definitions: Seq<Definition>, hardware: HardwareView)
    requires
        definitions.len() <= Id::MAX,
    ensures
        build(definitions, hardware).nodes.len() == definitions.len(),
        build(definitions, hardware).nodes.map_values(|node: NodeView| node.id).no_duplicates(),
{
    lemma_build_len(definitions, hardware);
    lemma_build_wf(definitions, hardware);
}

/// No node of a build is among its own inputs, nor among the inputs of its
/// inputs, and so on.
pub proof fn lemma_build_acyclic(
    definitions: Seq<Definition>,
    hardware: HardwareView,
    id: Id,
    steps: nat,
)
    requires
        definitions.len() <= Id::MAX,
        steps >= 1,
    ensures
        !reaches(build(definitions, hardware).nodes, id, id, steps),
{
    lemma_build_wf(definitions, hardware);
    lemma_acyclic(build(definitions, hardware).nodes, id, steps);
}

/// Among the definitions before `k`, one has the name `name` and a kind
/// that a node of kind `node_type` may read.
pub open spec fn defined_before(
    definitions: Seq<Definition>,
    k: int,
    name: Seq<char>,
    node_type: NodeTypeLight,
) -> bool {
    exists|i: int|
        0 <= i < k && (#[trigger] definitions[i]).name() == name && node_type.allowed_dep(
            definitions[i].to_light(),
        )
}

/// What makes the node of definition `k` valid: hardware that the inventory
/// has, for a sensor and an actuator; an input that an earlier definition of
/// a fitting kind answers to, for a controller and an actuator.
pub open spec fn definition_valid(
    definitions: Seq<Definition>,
    hardware: HardwareView,
    k: int,
) -> bool {
    match definitions[k] {
        Definition::Temp(temp) => {
            &&& temp.hardware_id matches Some(id)
            &&& hardware.internal_index(id, HardwareType::Temp) is Some
        },
        Definition::Target(target) => {
            &&& target.input matches Some(name)
            &&& defined_before(definitions, k, name, NodeTypeLight::Target)
        },
        Definition::Control(control) => {
            &&& control.hardware_id matches Some(id)
            &&& hardware.internal_index(id, HardwareType::Control) is Some
            &&& control.input matches Some(name)
            &&& defined_before(definitions, k, name, NodeTypeLight::Control)
        },
    }
}

/// An input resolves among the nodes of the first `k` definitions exactly
/// when one of those definitions answers to it.
pub proof fn lemma_find_input_defined(
    definitions: Seq<Definition>,
    hardware: HardwareView,
    k: int,
    name: Seq<char>,
    node_type: NodeTypeLight,
)
    requires
        0 <= k <= definitions.len(),
    ensures
        find_input(build(definitions.take(k), hardware).nodes, name, node_type) is Some
            <==> defined_before(definitions, k, name, node_type),
{
    let prefix = definitions.take(k);
    let nodes = build(prefix, hardware).nodes;
    let wanted = |node: NodeView| is_input(node, name, node_type);
    lemma_build_len(prefix, hardware);
    lemma_first_index(nodes, wanted);
    assert forall|i: int| 0 <= i < k implies wanted(#[trigger] nodes[i]) == (definitions[i].name()
        == name && node_type.allowed_dep(definitions[i].to_light())) by {
        lemma_build_names(prefix, hardware, i);
    }
    if defined_before(definitions, k, name, node_type) {
        let i = choose|i: int|
            0 <= i < k && (#[trigger] definitions[i]).name() == name && node_type.allowed_dep(
                definitions[i].to_light(),
            );
        assert(wanted(nodes[i]));
    }
}

/// A node is valid exactly when its definition has what `definition_valid`
/// asks for. Nothing else in the configuration or the inventory bears on it.
pub proof fn lemma_build_valid(definitions: Seq<Definition>, hardware: HardwareView, k: int)
    requires
        0 <= k < definitions.len(),
    ensures
        build(definitions, hardware).nodes[k].node_type.valid() == definition_valid(
            definitions,
            hardware,
            k,
        ),
{
    lemma_build_node(definitions, hardware, k);
    match definitions[k] {
        Definition::Temp(temp) => {},
        Definition::Target(target) => {
            if let Some(name) = target.input {
                lemma_find_input_defined(definitions, hardware, k, name, NodeTypeLight::Target);
            }
        },
        Definition::Control(control) => {
            if let Some(name) = control.input {
                lemma_find_input_defined(definitions, hardware, k, name, NodeTypeLight::Control);
            }
        },
    }
}

/// A sensor whose hardware the inventory lacks becomes an invalid node
/// that has neither a hardware id nor an internal index, whatever index its
/// definition came with, and the build goes on: every definition still
/// becomes a node.
pub proof fn lemma_missing_hardware(definitions: Seq<Definition>, hardware: HardwareView, k: int)
    requires
        0 <= k < definitions.len(),
        definitions[k] matches Definition::Temp(temp) && temp.hardware_id matches Some(id)
            && hardware.internal_index(id, HardwareType::Temp) is None,
    ensures
        !build(definitions, hardware).nodes[k].node_type.valid(),
        build(definitions, hardware).nodes.len() == definitions.len(),
        build(definitions, hardware).nodes[k].node_type matches NodeTypeView::Temp(temp)
            && temp.hardware_id is None && temp.hardware_internal_index is None,
{
    lemma_build_node(definitions, hardware, k);
}

/// In every node of a build the internal index is the one that the
/// hardware id of its definition resolves to in the inventory of that build,
/// or none: there is an index exactly when there is an id, and the index
/// that a definition came with plays no part.
pub proof fn lemma_build_bound(definitions: Seq<Definition>, hardware: HardwareView, k: int)
    requires
        0 <= k < definitions.len(),
    ensures
        match (definitions[k], build(definitions, hardware).nodes[k].node_type) {
            (Definition::Temp(defined), NodeTypeView::Temp(temp)) => {
                &&& temp.consistent()
                &&& temp.hardware_internal_index == hardware.bound_index(
                    defined.hardware_id,
                    HardwareType::Temp,
                )
                &&& temp.hardware_id matches Some(id) ==> defined.hardware_id == Some(id)
            },
            (Definition::Control(defined), NodeTypeView::Control(control)) => {
                &&& control.consistent()
                &&& control.hardware_internal_index == hardware.bound_index(
                    defined.hardware_id,
                    HardwareType::Control,
                )
                &&& control.hardware_id matches Some(id) ==> defined.hardware_id == Some(id)
            },
            (Definition::Target(_), NodeTypeView::Target(_, _)) => true,
            _ => false,
        },
{
    lemma_build_node(definitions, hardware, k);
}

/// Two well-formed graphs whose nodes have the same names and kinds,
/// position by position, resolve every input alike.
pub proof fn lemma_find_input_alike(
    a: Seq<NodeView>,
    b: Seq<NodeView>,
    name: Seq<char>,
    node_type: NodeTypeLight,
)
    requires
        graph_wf(a),
        graph_wf(b),
        a.len() == b.len(),
        forall|i: int|
            0 <= i < a.len() ==> (#[trigger] a[i]).node_type.name() == b[i].node_type.name()
                && a[i].node_type.to_light() == b[i].node_type.to_light(),
    ensures
        find_input(a, name, node_type) == find_input(b, name, node_type),
{
    let wanted = |node: NodeView| is_input(node, name, node_type);
    lemma_first_index(a, wanted);
    lemma_first_index(b, wanted);
    assert forall|i: int| 0 <= i < a.len() implies wanted(#[trigger] a[i]) == wanted(b[i]) by {}
    // The first node that answers in one graph answers in the other, and
    // no earlier one does.
    if let Some(j) = first_index(b, wanted) {
        assert(wanted(a[j]) == wanted(b[j]));
    }
}

/// The node of a definition stays the same when the definitions before it
/// change in anything but their names and kinds, and those after it in
/// anything at all.
pub proof fn lemma_build_node_alike(
    a: Seq<Definition>,
    b: Seq<Definition>,
    hardware: HardwareView,
    k: int,
)
    requires
        a.len() <= Id::MAX,
        b.len() <= Id::MAX,
        0 <= k < a.len(),
        k < b.len(),
        a[k] == b[k],
        forall|i: int|
            0 <= i < k ==> (#[trigger] a[i]).name() == b[i].name() && a[i].to_light()
                == b[i].to_light(),
    ensures
        build(a, hardware).nodes[k] == build(b, hardware).nodes[k],
{
    let before_a = build(a.take(k), hardware).nodes;
    let before_b = build(b.take(k), hardware).nodes;
    lemma_build_node(a, hardware, k);
    lemma_build_node(b, hardware, k);
    lemma_build_len(a.take(k), hardware);
    lemma_build_len(b.take(k), hardware);
    lemma_build_wf(a.take(k), hardware);
    lemma_build_wf(b.take(k), hardware);
    assert forall|i: int| 0 <= i < k implies (#[trigger] before_a[i]).node_type.name()
        == before_b[i].node_type.name() && before_a[i].node_type.to_light()
        == before_b[i].node_type.to_light() by {
        lemma_build_names(a.take(k), hardware, i);
        lemma_build_names(b.take(k), hardware, i);
    }
    match a[k] {
        Definition::Temp(temp) => {},
        Definition::Target(target) => {
            if let Some(name) = target.input {
                lemma_find_input_alike(before_a, before_b, name, NodeTypeLight::Target);
            }
        },
        Definition::Control(control) => {
            if let Some(name) = control.input {
                lemma_find_input_alike(before_a, before_b, name, NodeTypeLight::Control);
            }
        },
    }
}

/// Whatever hardware a sensor names, and whether the inventory has it or
/// not, every other node of the build is the same.
pub proof fn lemma_other_nodes_unchanged(
    definitions: Seq<Definition>,
    hardware: HardwareView,
    k: int,
    hardware_id: Option<Seq<char>>,
    j: int,
)
    requires
        definitions.len() <= Id::MAX,
        0 <= k < definitions.len(),
        definitions[k] is Temp,
        0 <= j < definitions.len(),
        j != k,
    ensures
        build(
            definitions.update(
                k,
                Definition::Temp(TempView { hardware_id, ..definitions[k]->Temp_0 }),
            ),
            hardware,
        ).nodes[j] == build(definitions, hardware).nodes[j],
{
    let changed = definitions.update(
        k,
        Definition::Temp(TempView { hardware_id, ..definitions[k]->Temp_0 }),
    );
    lemma_build_node_alike(changed, definitions, hardware, j);
}

/// The controller of a build has the name and the thresholds of its
/// definition, in numbers and as text, and is idle.
pub proof fn lemma_build_target(definitions: Seq<Definition>, hardware: HardwareView, k: int)
    requires
        0 <= k < definitions.len(),
        definitions[k] is Target,
    ensures
        ({
            let defined = definitions[k]->Target_0;
            &&& build(definitions, hardware).nodes[k].node_type matches NodeTypeView::Target(
                target,
                cache,
            )
            &&& target.same_thresholds(defined)
            &&& target.name == defined.name
            &&& !target.idle_has_been_reatch
            &&& cache == defined.cache()
            &&& cache == target.cache()
        }),
{
    lemma_build_node(definitions, hardware, k);
}

} // verus!
