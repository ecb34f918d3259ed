//! The state and the rules of a PipeWire volume control panel.

pub mod app;
pub mod app_laws;
pub mod artifacts;
pub mod backend;
pub mod control_laws;
pub mod demo;
pub mod frame;
pub mod host;
pub mod host_laws;
pub mod keys;
pub mod levels;
pub mod menu_laws;
pub mod menus;
pub mod model;
pub mod model_laws;
pub mod panels;
pub mod probe;
pub mod routing;
pub mod routing_laws;
pub mod row_laws;
pub mod text;
pub mod util;
pub mod waterfall;
pub mod widgets;
