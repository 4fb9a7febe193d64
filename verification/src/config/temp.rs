//! The temperature sensor.

use crate::diagnostic::{diagnostic_views, Diagnostic, DiagnosticView};
use crate::hardware::{Hardware, HardwareType, HardwareView};
use crate::id::{Id, IdGenerator};
use crate::node::{Inputs, IsValid, NbInput, Node, NodeType, NodeTypeView, NodeView};
use vstd::prelude::*;

verus! {

/// A sensor of the machine, by the id that the hardware layer gives it.
#[derive(Clone, Debug)]
pub struct Temp {
    pub name: String,
    pub hardware_id: Option<String>,
    /// Where the sensor stands in the inventory of this run. Not part of a
    /// configuration: every build resolves it anew.
    pub hardware_internal_index: Option<usize>,
}

/// A sensor as the contracts see it.
pub struct TempView {
    pub name: Seq<char>,
    pub hardware_id: Option<Seq<char>>,
    pub hardware_internal_index: Option<usize>,
}

impl View for Temp {
    type V = TempView;

    open spec fn view(&self) -> TempView {
        TempView {
            name: self.name@,
            hardware_id: self.hardware_id.deep_view(),
            hardware_internal_index: self.hardware_internal_index,
        }
    }
}

impl TempView {
    /// A sensor can be read when it has a hardware id and an internal index.
    pub open spec fn valid(self) -> bool {
        self.hardware_id is Some && self.hardware_internal_index is Some
    }

    /// There is an internal index exactly when there is a hardware id.
    pub open spec fn consistent(self) -> bool {
        self.hardware_internal_index is Some <==> self.hardware_id is Some
    }

    /// The sensor once it is bound to the inventory.
    pub open spec fn bound(self, hardware: HardwareView) -> TempView {
        TempView {
            name: self.name,
            hardware_id: hardware.bound_id(self.hardware_id, HardwareType::Temp),
            hardware_internal_index: hardware.bound_index(self.hardware_id, HardwareType::Temp),
        }
    }

    /// What binding the sensor reports.
    pub open spec fn report(self, hardware: HardwareView) -> Seq<DiagnosticView> {
        hardware.binding_report(
            self.name,
            self.hardware_id,
            self.hardware_internal_index,
            HardwareType::Temp,
        )
    }

    /// The node that the sensor becomes: bound, without inputs, without a
    /// value.
    pub open spec fn node(self, id: Id, hardware: HardwareView) -> NodeView {
        NodeView {
            id,
            node_type: NodeTypeView::Temp(self.bound(hardware)),
            max_input: NbInput::Zero,
            inputs: Seq::empty(),
            value: None,
        }
    }
}

impl Temp {
    /// Makes the node of this sensor, under the next identifier.
    ///
    /// A hardware id that the inventory has gives the node its internal
    /// index. One that it lacks is dropped and reported, together with any
    /// internal index, and the node is invalid. An internal index without a
    /// hardware id is dropped and reported. The node has an index exactly
    /// when it has an id.
    pub fn to_node(
        self,
        id_generator: &mut IdGenerator,
        hardware: &Hardware,
        diagnostics: &mut Vec<Diagnostic>,
    ) -> (node: Node)
        requires
            old(id_generator).last() < Id::MAX,
        ensures
            final(id_generator).last() == old(id_generator).last() + 1,
            node@ == self@.node((old(id_generator).last() + 1) as Id, hardware@),
            node@.node_type matches NodeTypeView::Temp(temp) && temp.consistent(),
            diagnostic_views(final(diagnostics)@) == diagnostic_views(old(diagnostics)@)
                + self@.report(hardware@),
    {
        let mut temp = self;
        hardware.bind(
            HardwareType::Temp,
            &temp.name,
            &mut temp.hardware_id,
            &mut temp.hardware_internal_index,
            diagnostics,
        );
        Node {
            id: id_generator.new_id(),
            node_type: NodeType::Temp(temp),
            max_input: NbInput::Zero,
            inputs: Vec::new(),
            value: None,
        }
    }
}

/// A sensor reads no other node.
impl Inputs for Temp {
    open spec fn input(&self) -> Option<Seq<char>> {
        None
    }

    open spec fn without_input(self) -> Temp {
        self
    }

    fn clear_inputs(&mut self) {
    }

    fn get_inputs(&self) -> Vec<&String> {
        Vec::new()
    }
}

impl IsValid for Temp {
    open spec fn valid(&self) -> bool {
        self@.valid()
    }

    fn is_valid(&self) -> bool {
        self.hardware_id.is_some() && self.hardware_internal_index.is_some()
    }
}

} // verus!
