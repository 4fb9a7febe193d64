//! The actuator: a fan or a pump whose speed the graph sets.

use crate::diagnostic::{diagnostic_views, Diagnostic, DiagnosticView};
use crate::hardware::{Hardware, HardwareType, HardwareView};
use crate::id::{Id, IdGenerator};
use crate::node::{
    node_views, sanitize_inputs, sanitized_input, sanitized_inputs, sanitizing_report, Inputs,
    IsValid, NbInput, Node, NodeType, NodeTypeLight, NodeTypeView, NodeView, Nodes,
};
use vstd::prelude::*;

verus! {

/// A control of the machine, fed by the controller that `input` names.
#[derive(Clone, Debug)]
pub struct Control {
    pub name: String,
    pub hardware_id: Option<String>,
    /// The name of the node that feeds this one.
    pub input: Option<String>,
    /// Where the control stands in the inventory of this run. Not part of a
    /// configuration: every build resolves it anew.
    pub hardware_internal_index: Option<usize>,
}

/// A control as the contracts see it.
pub struct ControlView {
    pub name: Seq<char>,
    pub hardware_id: Option<Seq<char>>,
    pub input: Option<Seq<char>>,
    pub hardware_internal_index: Option<usize>,
}

impl View for Control {
    type V = ControlView;

    open spec fn view(&self) -> ControlView {
        ControlView {
            name: self.name@,
            hardware_id: self.hardware_id.deep_view(),
            input: self.input.deep_view(),
            hardware_internal_index: self.hardware_internal_index,
        }
    }
}

impl ControlView {
    /// There is an internal index exactly when there is a hardware id.
    pub open spec fn consistent(self) -> bool {
        self.hardware_internal_index is Some <==> self.hardware_id is Some
    }

    /// A control can be driven when it is bound to hardware and has an
    /// input.
    pub open spec fn valid(self) -> bool {
        self.hardware_id is Some && self.hardware_internal_index is Some && self.input is Some
    }

    /// The control once it is bound to the inventory.
    pub open spec fn bound(self, hardware: HardwareView) -> ControlView {
        ControlView {
            hardware_id: hardware.bound_id(self.hardware_id, HardwareType::Control),
            hardware_internal_index: hardware.bound_index(
                self.hardware_id,
                HardwareType::Control,
            ),
            ..self
        }
    }
}

impl ControlView {
    /// The control as a build admits it: bound to the inventory, and
    /// without an input that does not resolve among `nodes`.
    pub open spec fn sanitized(self, nodes: Seq<NodeView>, hardware: HardwareView) -> ControlView {
        ControlView {
            input: sanitized_input(self.input, nodes, NodeTypeLight::Control),
            ..self.bound(hardware)
        }
    }

    /// What admitting the control reports: first about its hardware, then
    /// about its input.
    pub open spec fn report(self, nodes: Seq<NodeView>, hardware: HardwareView) -> Seq<
        DiagnosticView,
    > {
        hardware.binding_report(
            self.name,
            self.hardware_id,
            self.hardware_internal_index,
            HardwareType::Control,
        ) + sanitizing_report(self.input, nodes, NodeTypeLight::Control)
    }

    /// The node that the control becomes: bound, reading the controller
    /// that its input names among `nodes`, without a value.
    pub open spec fn node(self, id: Id, nodes: Seq<NodeView>, hardware: HardwareView) -> NodeView {
        NodeView {
            id,
            node_type: NodeTypeView::Control(self.sanitized(nodes, hardware)),
            max_input: NbInput::One,
            inputs: sanitized_inputs(self.input, nodes, NodeTypeLight::Control),
            value: None,
        }
    }
}

impl Control {
    /// Makes the node of this control, under the next identifier.
    ///
    /// The hardware id is resolved as for a sensor: the node has an internal
    /// index exactly when it has a hardware id, and an id that the inventory
    /// lacks is dropped and reported. The input is the first controller
    /// among `nodes` that has the name that the definition gives; where
    /// there is none, the input is dropped and reported. A node that lacks
    /// either is invalid.
    pub fn to_node(
        self,
        id_generator: &mut IdGenerator,
        nodes: &Nodes,
        hardware: &Hardware,
        diagnostics: &mut Vec<Diagnostic>,
    ) -> (node: Node)
        requires
            old(id_generator).last() < Id::MAX,
        ensures
            final(id_generator).last() == old(id_generator).last() + 1,
            node@ == self@.node(
                (old(id_generator).last() + 1) as Id,
                node_views(nodes@),
                hardware@,
            ),
            node@.node_type matches NodeTypeView::Control(control) && control.consistent(),
            diagnostic_views(final(diagnostics)@) == diagnostic_views(old(diagnostics)@)
                + self@.report(node_views(nodes@), hardware@),
    {
        let mut control = self;
        hardware.bind(
            HardwareType::Control,
            &control.name,
            &mut control.hardware_id,
            &mut control.hardware_internal_index,
            diagnostics,
        );
        let inputs = sanitize_inputs(&mut control, nodes, NodeTypeLight::Control, diagnostics);
        Node::new(id_generator, NodeType::Control(control), inputs)
    }
}

impl Inputs for Control {
    open spec fn input(&self) -> Option<Seq<char>> {
        self@.input
    }

    open spec fn without_input(self) -> Control {
        Control { input: None, ..self }
    }

    fn clear_inputs(&mut self) {
        self.input = None;
    }

    fn get_inputs(&self) -> Vec<&String> {
        match &self.input {
            Some(input) => vec![input],
            None => Vec::new(),
        }
    }
}

impl IsValid for Control {
    open spec fn valid(&self) -> bool {
        self@.valid()
    }

    fn is_valid(&self) -> bool {
        self.hardware_id.is_some() && self.hardware_internal_index.is_some()
            && self.input.is_some()
    }
}

} // verus!
