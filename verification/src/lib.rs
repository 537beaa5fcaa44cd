//! A plugin host: plugins come from shared libraries or from builders linked
//! into the host, and live in one registry that addresses them by number or
//! by name.
pub mod adapter;
pub mod error;
pub mod plugin;
pub mod registry;
pub mod resolver;
pub mod store;
pub mod version;

pub use error::Error;
pub use plugin::{Plugin, PluginBuilder, PluginId, PluginInstance, PluginType};
pub use registry::PluginRegistry;
pub use version::VERSION;
