//! A read-only snapshot of the machine's sensors and controls.

use crate::diagnostic::{diagnostic_views, report, Diagnostic, DiagnosticView};
use crate::search::{first_match, lemma_first_index_absent, lemma_first_index_found};
use vstd::prelude::*;

verus! {

/// A sensor reading or an actuator speed.
pub type Value = i32;

/// What a piece of hardware is.
#[derive(Clone, Copy, Debug, PartialEq, Eq, Structural)]
pub enum HardwareType {
    Control,
    Temp,
}

/// One sensor or control as the hardware layer reports it.
#[derive(Clone, Debug)]
pub struct HardwareItem {
    pub name: String,
    /// Stable across runs.
    pub hardware_id: String,
    /// The handle by which the hardware layer addresses the item in this run.
    pub internal_index: usize,
    /// The latest reading, where there is one.
    pub value: Option<Value>,
}

/// An item as the contracts see it.
pub struct HardwareItemView {
    pub name: Seq<char>,
    pub hardware_id: Seq<char>,
    pub internal_index: usize,
    pub value: Option<Value>,
}

impl View for HardwareItem {
    type V = HardwareItemView;

    open spec fn view(&self) -> HardwareItemView {
        HardwareItemView {
            name: self.name@,
            hardware_id: self.hardware_id@,
            internal_index: self.internal_index,
            value: self.value,
        }
    }
}

/// The views of a list of items.
pub open spec fn item_views(items: Seq<HardwareItem>) -> Seq<HardwareItemView> {
    items.map_values(|item: HardwareItem| item@)
}

/// The inventory: what hardware there is, and what the sensors read.
#[derive(Clone, Debug)]
pub struct Hardware {
    pub controls: Vec<HardwareItem>,
    pub temps: Vec<HardwareItem>,
}

/// The inventory as the contracts see it.
pub struct HardwareView {
    pub controls: Seq<HardwareItemView>,
    pub temps: Seq<HardwareItemView>,
}

impl View for Hardware {
    type V = HardwareView;

    open spec fn view(&self) -> HardwareView {
        HardwareView { controls: item_views(self.controls@), temps: item_views(self.temps@) }
    }
}

impl HardwareView {
    /// The items of one type, in the order of the inventory.
    pub open spec fn items(self, hardware_type: HardwareType) -> Seq<HardwareItemView> {
        match hardware_type {
            HardwareType::Control => self.controls,
            HardwareType::Temp => self.temps,
        }
    }

    /// The internal index of the first item of the given type that has the
    /// given id.
    pub open spec fn internal_index(
        self,
        hardware_id: Seq<char>,
        hardware_type: HardwareType,
    ) -> Option<usize> {
        match first_match(
            self.items(hardware_type),
            |item: HardwareItemView| item.hardware_id == hardware_id,
        ) {
            Some(item) => Some(item.internal_index),
            None => None,
        }
    }

    /// The reading of the first sensor that has the given internal index.
    pub open spec fn value(self, internal_index: usize) -> Option<Value> {
        match first_match(
            self.temps,
            |item: HardwareItemView| item.internal_index == internal_index,
        ) {
            Some(item) => item.value,
            None => None,
        }
    }
}

impl HardwareView {
    /// The hardware id that a definition keeps when it is bound: its own
    /// where the inventory has it, none otherwise.
    pub open spec fn bound_id(
        self,
        hardware_id: Option<Seq<char>>,
        hardware_type: HardwareType,
    ) -> Option<Seq<char>> {
        match hardware_id {
            Some(id) => if self.internal_index(id, hardware_type) is Some {
                Some(id)
            } else {
                None
            },
            None => None,
        }
    }

    /// The internal index that a definition has once it is bound: the one
    /// that its hardware id resolves to in this inventory, and none where it
    /// has no id or the id does not resolve. The index that the definition
    /// came with plays no part.
    pub open spec fn bound_index(
        self,
        hardware_id: Option<Seq<char>>,
        hardware_type: HardwareType,
    ) -> Option<usize> {
        match hardware_id {
            Some(id) => self.internal_index(id, hardware_type),
            None => None,
        }
    }

    /// What binding a definition reports: an id that does not resolve, or an
    /// index that came without an id.
    pub open spec fn binding_report(
        self,
        name: Seq<char>,
        hardware_id: Option<Seq<char>>,
        internal_index: Option<usize>,
        hardware_type: HardwareType,
    ) -> Seq<DiagnosticView> {
        match hardware_id {
            Some(id) => if self.internal_index(id, hardware_type) is Some {
                Seq::empty()
            } else {
                seq![DiagnosticView::HardwareNotFound { hardware_id: id }]
            },
            None => if internal_index is Some {
                seq![DiagnosticView::InconsistentIndex { name }]
            } else {
                Seq::empty()
            },
        }
    }
}

/// Once a definition is bound it has an internal index exactly when it has
/// a hardware id, and the index is the one that the id resolves to.
pub proof fn lemma_bound(
    hardware: HardwareView,
    hardware_id: Option<Seq<char>>,
    hardware_type: HardwareType,
)
    ensures
        hardware.bound_index(hardware_id, hardware_type) is Some <==> hardware.bound_id(
            hardware_id,
            hardware_type,
        ) is Some,
        hardware.bound_id(hardware_id, hardware_type) matches Some(id) ==> hardware_id == Some(id)
            && hardware.bound_index(hardware_id, hardware_type) == hardware.internal_index(
            id,
            hardware_type,
        ),
{
}

impl Hardware {
    /// Binds a definition to the hardware that its id names.
    ///
    /// An id that resolves sets the internal index. An id that does not
    /// resolve is dropped and reported, and the internal index with it. An
    /// internal index without an id is dropped and reported. Afterwards
    /// there is an index exactly when there is an id.
    pub fn bind(
        &self,
        hardware_type: HardwareType,
        name: &String,
        hardware_id: &mut Option<String>,
        internal_index: &mut Option<usize>,
        diagnostics: &mut Vec<Diagnostic>,
    )
        ensures
            final(hardware_id).deep_view() == self@.bound_id(
                old(hardware_id).deep_view(),
                hardware_type,
            ),
            *final(internal_index) == self@.bound_index(
                old(hardware_id).deep_view(),
                hardware_type,
            ),
            diagnostic_views(final(diagnostics)@) == diagnostic_views(old(diagnostics)@)
                + self@.binding_report(
                name@,
                old(hardware_id).deep_view(),
                *old(internal_index),
                hardware_type,
            ),
    {
        let resolved = match hardware_id {
            Some(id) => Some(self.get_internal_index(id, hardware_type)),
            None => None,
        };
        match resolved {
            Some(Some(index)) => {
                *internal_index = Some(index);
            },
            Some(None) => {
                let dropped = hardware_id.take();
                *internal_index = None;
                report(diagnostics, Diagnostic::HardwareNotFound { hardware_id: dropped.unwrap() });
            },
            None => {
                if internal_index.is_some() {
                    report(diagnostics, Diagnostic::InconsistentIndex { name: name.clone() });
                    *internal_index = None;
                }
            },
        }
    }

    /// Resolves a hardware id to the internal index of the item that has it.
    /// Gives nothing exactly when the inventory holds no item of that type
    /// with that id.
    pub fn get_internal_index(&self, hardware_id: &String, hardware_type: HardwareType) -> (index:
        Option<usize>)
        ensures
            index == self@.internal_index(hardware_id@, hardware_type),
    {
        let items = match hardware_type {
            HardwareType::Control => &self.controls,
            HardwareType::Temp => &self.temps,
        };
        let ghost views = self@.items(hardware_type);
        let ghost wanted = |item: HardwareItemView| item.hardware_id == hardware_id@;
        let mut i: usize = 0;
        while i < items.len()
            invariant
                i <= items.len(),
                views == self@.items(hardware_type),
                views == item_views(items@),
                wanted == |item: HardwareItemView| item.hardware_id == hardware_id@,
                forall|j: int| 0 <= j < i ==> !wanted(#[trigger] views[j]),
            decreases items.len() - i,
        {
            if items[i].hardware_id == *hardware_id {
                proof {
                    lemma_first_index_found(views, wanted, i as int);
                }
                return Some(items[i].internal_index);
            }
            i += 1;
        }
        proof {
            lemma_first_index_absent(views, wanted);
        }
        None
    }

    /// The latest reading of the sensor with the given internal index.
    /// Gives nothing when there is no such sensor or it has no reading.
    pub fn get_value(&self, internal_index: usize) -> (value: Option<Value>)
        ensures
            value == self@.value(internal_index),
    {
        let ghost views = self@.temps;
        let ghost wanted = |item: HardwareItemView| item.internal_index == internal_index;
        let mut i: usize = 0;
        while i < self.temps.len()
            invariant
                i <= self.temps.len(),
                views == item_views(self.temps@),
                wanted == |item: HardwareItemView| item.internal_index == internal_index,
                forall|j: int| 0 <= j < i ==> !wanted(#[trigger] views[j]),
            decreases self.temps.len() - i,
        {
            if self.temps[i].internal_index == internal_index {
                proof {
                    lemma_first_index_found(views, wanted, i as int);
                }
                return self.temps[i].value;
            }
            i += 1;
        }
        proof {
            lemma_first_index_absent(views, wanted);
        }
        None
    }
}

} // verus!
