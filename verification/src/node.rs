//! The nodes of the graph and what they have in common.

use crate::config::control::{Control, ControlView};
use crate::config::target::{Target, TargetCache, TargetCacheView, TargetView};
use crate::config::temp::{Temp, TempView};
use crate::diagnostic::{diagnostic_views, report, Diagnostic, DiagnosticView};
use crate::hardware::Value;
use crate::id::{Id, IdGenerator};
use crate::search::{first_match, lemma_first_index_absent, lemma_first_index_found};
use vstd::prelude::*;

verus! {

/// How many inputs a node may have.
#[derive(Clone, Copy, Debug, PartialEq, Eq, Structural)]
pub enum NbInput {
    Zero,
    One,
    Infinity,
}

impl NbInput {
    /// Whether a node of this arity may have `n` inputs.
    pub open spec fn admits(self, n: nat) -> bool {
        match self {
            NbInput::Zero => n == 0,
            NbInput::One => n <= 1,
            NbInput::Infinity => true,
        }
    }
}

/// The kind of a node, without its payload.
#[derive(Clone, Copy, Debug, PartialEq, Eq, Structural)]
pub enum NodeTypeLight {
    Control,
    Temp,
    Target,
}

impl NodeTypeLight {
    /// A sensor has no input; a controller and an actuator have one.
    pub open spec fn spec_max_input(&self) -> NbInput {
        match self {
            NodeTypeLight::Temp => NbInput::Zero,
            NodeTypeLight::Target => NbInput::One,
            NodeTypeLight::Control => NbInput::One,
        }
    }

    /// How many inputs a node of this kind may have.
    #[verifier::when_used_as_spec(spec_max_input)]
    pub fn max_input(&self) -> (max_input: NbInput)
        ensures
            max_input == self.spec_max_input(),
    {
        match self {
            NodeTypeLight::Temp => NbInput::Zero,
            NodeTypeLight::Target => NbInput::One,
            NodeTypeLight::Control => NbInput::One,
        }
    }

    /// A controller reads a sensor, an actuator reads a controller, and a
    /// sensor reads nothing.
    pub open spec fn spec_allowed_dep(&self, dep: NodeTypeLight) -> bool {
        match self {
            NodeTypeLight::Temp => false,
            NodeTypeLight::Target => dep == NodeTypeLight::Temp,
            NodeTypeLight::Control => dep == NodeTypeLight::Target,
        }
    }

    /// Whether a node of this kind may have a node of kind `dep` as input.
    #[verifier::when_used_as_spec(spec_allowed_dep)]
    pub fn allowed_dep(&self, dep: NodeTypeLight) -> (allowed: bool)
        ensures
            allowed == self.spec_allowed_dep(dep),
    {
        match self {
            NodeTypeLight::Temp => false,
            NodeTypeLight::Target => dep == NodeTypeLight::Temp,
            NodeTypeLight::Control => dep == NodeTypeLight::Target,
        }
    }
}

/// A definition that may lack what it needs to take part in evaluation.
pub trait IsValid {
    /// Whether nothing is lacking.
    spec fn valid(&self) -> bool;

    /// Whether nothing is lacking.
    fn is_valid(&self) -> (valid: bool)
        ensures
            valid == self.valid(),
    ;
}

/// The kind of a node, with its payload.
#[derive(Clone, Debug)]
pub enum NodeType {
    Control(Control),
    Temp(Temp),
    Target(Target, TargetCache),
}

/// A kind with its payload, as the contracts see it.
pub enum NodeTypeView {
    Control(ControlView),
    Temp(TempView),
    Target(TargetView, TargetCacheView),
}

impl View for NodeType {
    type V = NodeTypeView;

    open spec fn view(&self) -> NodeTypeView {
        match self {
            NodeType::Control(control) => NodeTypeView::Control(control@),
            NodeType::Temp(temp) => NodeTypeView::Temp(temp@),
            NodeType::Target(target, cache) => NodeTypeView::Target(target@, cache@),
        }
    }
}

impl NodeTypeView {
    /// The name that the definition gives the node.
    pub open spec fn name(self) -> Seq<char> {
        match self {
            NodeTypeView::Control(control) => control.name,
            NodeTypeView::Temp(temp) => temp.name,
            NodeTypeView::Target(target, _) => target.name,
        }
    }

    /// The kind of the node.
    pub open spec fn to_light(self) -> NodeTypeLight {
        match self {
            NodeTypeView::Control(_) => NodeTypeLight::Control,
            NodeTypeView::Temp(_) => NodeTypeLight::Temp,
            NodeTypeView::Target(_, _) => NodeTypeLight::Target,
        }
    }

    /// A sensor or an actuator has an internal index exactly when it has a
    /// hardware id.
    pub open spec fn consistent(self) -> bool {
        match self {
            NodeTypeView::Control(control) => control.consistent(),
            NodeTypeView::Temp(temp) => temp.consistent(),
            NodeTypeView::Target(_, _) => true,
        }
    }

    /// Whether the node has what it needs to take part in evaluation.
    pub open spec fn valid(self) -> bool {
        match self {
            NodeTypeView::Control(control) => control.valid(),
            NodeTypeView::Temp(temp) => temp.valid(),
            NodeTypeView::Target(target, _) => target.valid(),
        }
    }
}

impl NodeType {
    /// The name that the definition gives the node.
    pub fn name(&self) -> (name: &String)
        ensures
            name@ == self@.name(),
    {
        match self {
            NodeType::Control(control) => &control.name,
            NodeType::Temp(temp) => &temp.name,
            NodeType::Target(target, _) => &target.name,
        }
    }

    /// The kind of the node.
    pub fn to_light(&self) -> (light: NodeTypeLight)
        ensures
            light == self@.to_light(),
    {
        match self {
            NodeType::Control(_) => NodeTypeLight::Control,
            NodeType::Temp(_) => NodeTypeLight::Temp,
            NodeType::Target(_, _) => NodeTypeLight::Target,
        }
    }
}

impl IsValid for NodeType {
    open spec fn valid(&self) -> bool {
        self@.valid()
    }

    fn is_valid(&self) -> bool {
        match self {
            NodeType::Control(control) => control.is_valid(),
            NodeType::Temp(temp) => temp.is_valid(),
            NodeType::Target(target, _) => target.is_valid(),
        }
    }
}

/// A node of the graph.
#[derive(Clone, Debug)]
pub struct Node {
    pub id: Id,
    pub node_type: NodeType,
    pub max_input: NbInput,
    /// The nodes that feed this one.
    pub inputs: Vec<Id>,
    /// What the node computed at the last tick, if anything.
    pub value: Option<Value>,
}

/// A node as the contracts see it.
pub struct NodeView {
    pub id: Id,
    pub node_type: NodeTypeView,
    pub max_input: NbInput,
    pub inputs: Seq<Id>,
    pub value: Option<Value>,
}

impl View for Node {
    type V = NodeView;

    open spec fn view(&self) -> NodeView {
        NodeView {
            id: self.id,
            node_type: self.node_type@,
            max_input: self.max_input,
            inputs: self.inputs@,
            value: self.value,
        }
    }
}

impl NodeView {
    /// The arity is that of the kind, and the inputs respect it.
    pub open spec fn wf(self) -> bool {
        &&& self.max_input == self.node_type.to_light().max_input()
        &&& self.max_input.admits(self.inputs.len())
    }
}

/// The nodes of a graph, in the order in which they were admitted.
pub type Nodes = Vec<Node>;

/// The views of a list of nodes.
pub open spec fn node_views(nodes: Seq<Node>) -> Seq<NodeView> {
    nodes.map_values(|node: Node| node@)
}

impl Node {
    /// A node of the kind of `node_type`, under the next identifier and
    /// without a value.
    pub fn new(id_generator: &mut IdGenerator, node_type: NodeType, inputs: Vec<Id>) -> (node: Node)
        requires
            old(id_generator).last() < Id::MAX,
            node_type@.to_light().max_input().admits(inputs@.len()),
        ensures
            final(id_generator).last() == old(id_generator).last() + 1,
            node@ == (NodeView {
                id: (old(id_generator).last() + 1) as Id,
                node_type: node_type@,
                max_input: node_type@.to_light().max_input(),
                inputs: inputs@,
                value: None,
            }),
            node@.wf(),
    {
        let max_input = node_type.to_light().max_input();
        Node { id: id_generator.new_id(), node_type, max_input, inputs, value: None }
    }
}

/// A definition that reads at most one other node, which it names.
pub trait Inputs: Sized {
    /// The name of the node that the definition reads, if it names one.
    spec fn input(&self) -> Option<Seq<char>>;

    /// The definition without its input.
    spec fn without_input(self) -> Self;

    /// Drops the input.
    fn clear_inputs(&mut self)
        ensures
            *final(self) == (*old(self)).without_input(),
    ;

    /// The names of the nodes that the definition reads.
    fn get_inputs(&self) -> (inputs: Vec<&String>)
        ensures
            match self.input() {
                Some(name) => inputs@.len() == 1 && inputs@[0]@ == name,
                None => inputs@.len() == 0,
            },
    ;
}

/// Whether `node` can be the input called `name` of a node of kind
/// `node_type`.
pub open spec fn is_input(node: NodeView, name: Seq<char>, node_type: NodeTypeLight) -> bool {
    node.node_type.name() == name && node_type.allowed_dep(node.node_type.to_light())
}

/// The identifier of the first of `nodes` that has the name `name` and a
/// kind that a node of kind `node_type` may read.
pub open spec fn find_input(nodes: Seq<NodeView>, name: Seq<char>, node_type: NodeTypeLight)
    -> Option<Id> {
    match first_match(nodes, |node: NodeView| is_input(node, name, node_type)) {
        Some(node) => Some(node.id),
        None => None,
    }
}

/// The identifier that an input resolves to among `nodes`.
pub open spec fn resolved_input(
    input: Option<Seq<char>>,
    nodes: Seq<NodeView>,
    node_type: NodeTypeLight,
) -> Option<Id> {
    match input {
        Some(name) => find_input(nodes, name, node_type),
        None => None,
    }
}

/// The input that a definition keeps: its own where it resolves, none
/// otherwise.
pub open spec fn sanitized_input(
    input: Option<Seq<char>>,
    nodes: Seq<NodeView>,
    node_type: NodeTypeLight,
) -> Option<Seq<char>> {
    if resolved_input(input, nodes, node_type) is Some {
        input
    } else {
        None
    }
}

/// The inputs of the node of a definition: the identifier that its input
/// resolves to, if it does.
pub open spec fn sanitized_inputs(
    input: Option<Seq<char>>,
    nodes: Seq<NodeView>,
    node_type: NodeTypeLight,
) -> Seq<Id> {
    match resolved_input(input, nodes, node_type) {
        Some(id) => seq![id],
        None => Seq::empty(),
    }
}

/// What resolving an input reports: an input that does not resolve.
pub open spec fn sanitizing_report(
    input: Option<Seq<char>>,
    nodes: Seq<NodeView>,
    node_type: NodeTypeLight,
) -> Seq<DiagnosticView> {
    match input {
        Some(name) => if find_input(nodes, name, node_type) is Some {
            Seq::empty()
        } else {
            seq![DiagnosticView::InputNotFound { input: name }]
        },
        None => Seq::empty(),
    }
}

/// Looks among `nodes` for the input called `name` of a node of kind
/// `node_type`.
pub fn find_node(nodes: &Nodes, name: &String, node_type: NodeTypeLight) -> (id: Option<Id>)
    ensures
        id == find_input(node_views(nodes@), name@, node_type),
{
    let ghost views = node_views(nodes@);
    let ghost wanted = |node: NodeView| is_input(node, name@, node_type);
    let mut i: usize = 0;
    while i < nodes.len()
        invariant
            i <= nodes.len(),
            views == node_views(nodes@),
            wanted == |node: NodeView| is_input(node, name@, node_type),
            forall|j: int| 0 <= j < i ==> !wanted(#[trigger] views[j]),
        decreases nodes.len() - i,
    {
        let node = &nodes[i];
        if *node.node_type.name() == *name && node_type.allowed_dep(node.node_type.to_light()) {
            proof {
                lemma_first_index_found(views, wanted, i as int);
            }
            return Some(node.id);
        }
        i += 1;
    }
    proof {
        lemma_first_index_absent(views, wanted);
    }
    None
}

/// Resolves the input of a definition against the nodes admitted so far.
///
/// An input that names one of `nodes`, of a kind that a node of kind
/// `node_type` may read, becomes that node's identifier. Any other input is
/// dropped from the definition and reported.
pub fn sanitize_inputs<T: Inputs>(
    item: &mut T,
    nodes: &Nodes,
    node_type: NodeTypeLight,
    diagnostics: &mut Vec<Diagnostic>,
) -> (inputs: Vec<Id>)
    ensures
        inputs@ == sanitized_inputs(old(item).input(), node_views(nodes@), node_type),
        *final(item) == if old(item).input() is Some && resolved_input(
            old(item).input(),
            node_views(nodes@),
            node_type,
        ) is None {
            (*old(item)).without_input()
        } else {
            *old(item)
        },
        diagnostic_views(final(diagnostics)@) == diagnostic_views(old(diagnostics)@)
            + sanitizing_report(old(item).input(), node_views(nodes@), node_type),
{
    let mut inputs: Vec<Id> = Vec::new();
    let mut missing: Option<String> = None;
    let names = item.get_inputs();
    if names.len() > 0 {
        let name = names[0];
        match find_node(nodes, name, node_type) {
            Some(id) => {
                inputs.push(id);
            },
            None => {
                missing = Some(name.clone());
            },
        }
    }
    if let Some(input) = missing {
        item.clear_inputs();
        report(diagnostics, Diagnostic::InputNotFound { input });
    }
    inputs
}

} // verus!
