//! Core engine of a tiling window manager: the client/workspace/monitor data
//! model, the layout algorithms, binding resolution, the pointer-drag state
//! machine, and the property-export data that a display-protocol backend
//! publishes on behalf of the manager.

pub mod atoms;
pub mod bar;
pub mod bindings;
pub mod client;
pub mod config;
pub mod drag;
pub mod error;
pub mod geometry;
pub mod layout;
pub mod monitor;
pub mod props;
pub mod wm;
pub mod workspace;
