//! The definitions that a configuration holds, one module per kind.

use crate::config::control::{Control, ControlView};
use crate::config::target::{Target, TargetView};
use crate::config::temp::{Temp, TempView};
use crate::node::NodeTypeLight;
use vstd::prelude::*;

pub mod control;
pub mod target;
pub mod temp;

verus! {

/// What the user wrote: the definitions of each kind, in their order.
#[derive(Clone, Debug)]
pub struct Config {
    pub temps: Vec<Temp>,
    pub targets: Vec<Target>,
    pub controls: Vec<Control>,
}

/// A configuration as the contracts see it.
pub struct ConfigView {
    pub temps: Seq<TempView>,
    pub targets: Seq<TargetView>,
    pub controls: Seq<ControlView>,
}

impl View for Config {
    type V = ConfigView;

    open spec fn view(&self) -> ConfigView {
        ConfigView {
            temps: self.temps@.map_values(|temp: Temp| temp@),
            targets: self.targets@.map_values(|target: Target| target@),
            controls: self.controls@.map_values(|control: Control| control@),
        }
    }
}

/// One definition of a configuration, of whatever kind.
pub enum Definition {
    Temp(TempView),
    Target(TargetView),
    Control(ControlView),
}

impl Definition {
    /// The name that the definition gives its node.
    pub open spec fn name(self) -> Seq<char> {
        match self {
            Definition::Temp(temp) => temp.name,
            Definition::Target(target) => target.name,
            Definition::Control(control) => control.name,
        }
    }

    /// The kind of node that the definition becomes.
    pub open spec fn to_light(self) -> NodeTypeLight {
        match self {
            Definition::Temp(_) => NodeTypeLight::Temp,
            Definition::Target(_) => NodeTypeLight::Target,
            Definition::Control(_) => NodeTypeLight::Control,
        }
    }
}

/// Definitions of the three kinds in the order in which a build admits
/// them: sensors, then controllers, then actuators, so that every
/// definition comes after those it may read.
pub open spec fn config_order(
    temps: Seq<TempView>,
    targets: Seq<TargetView>,
    controls: Seq<ControlView>,
) -> Seq<Definition> {
    temps.map_values(|temp: TempView| Definition::Temp(temp)) + targets.map_values(
        |target: TargetView| Definition::Target(target),
    ) + controls.map_values(|control: ControlView| Definition::Control(control))
}

impl ConfigView {
    /// The definitions in the order in which a build admits them.
    pub open spec fn definitions(self) -> Seq<Definition> {
        config_order(self.temps, self.targets, self.controls)
    }
}

} // verus!
