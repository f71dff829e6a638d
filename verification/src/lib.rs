//! Renders the topology of a data pipeline as graph-description text.

pub mod command;
pub mod dispatch;
pub mod laws;
pub mod model;
pub mod opts;
pub mod render;
pub mod unambiguous;
