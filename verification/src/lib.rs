//! The dataflow graph of a fan controller: sensor nodes feed control nodes,
//! control nodes feed actuator nodes. The graph is built from a
//! configuration and a snapshot of the hardware, and evaluated once per tick.

pub mod app_graph;
pub mod builder;
pub mod config;
pub mod decimal;
pub mod diagnostic;
pub mod hardware;
pub mod id;
pub mod node;
pub mod search;
pub mod update;
