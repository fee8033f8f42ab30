//! Plugin registry, script resolution and invocation planning for a small
//! script runner.

pub mod commands;
pub mod executor;
pub mod format;
pub mod lookup;
pub mod paths;
pub mod plugin;
pub mod registry;
pub mod run;
pub mod script;
pub mod selection;
pub mod store;
pub mod template;
pub mod text;
