//! Engine of a terminal dashboard for a proxy daemon: event reducer,
//! proxy-group tree, and windowed, width-aware scrollable lists.

pub mod config;
pub mod event;
pub mod keys;
pub mod list;
pub mod model;
pub mod proxy;
pub mod pulse;
pub mod state;
pub mod width;
