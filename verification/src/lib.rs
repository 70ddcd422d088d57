//! Verified core of WhaleNest, a desktop manager for the DeepSeek Harness (dsh).
use vstd::prelude::*;

pub mod cwd_map;
pub mod desktop;
pub mod detect;
pub mod env_check;
pub mod events;
pub mod install;
pub mod json;
pub mod kernel;
pub mod launch;
pub mod order;
pub mod plugin_list;
pub mod plugin_ops;
pub mod plugins;
pub mod readiness;
pub mod recommend;
pub mod state;
pub mod text;
pub mod tray_state;
pub mod ui;
pub mod version;

verus! {
} // verus!
