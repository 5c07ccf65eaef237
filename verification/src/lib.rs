//! Verified core of a Kubernetes dashboard: resource summaries, quantity
//! parsing and formatting, node sorting, a terminal screen buffer, hotkey
//! tables and the connector's decision logic.

pub mod chat;
pub mod connector;
pub mod crd;
pub mod hotkeys;
pub mod json;
pub mod navigation;
pub mod nodes;
pub mod num;
pub mod resources;
pub mod terminal;
pub mod text;
pub mod ui;
