//! The plugin list as configuration hands it to the core: an ordered
//! sequence of immutable per-plugin descriptions.

use vstd::prelude::*;

verus! {

/// Description of one plugin: how to run it and how to render its block.
pub struct PluginConfig {
    /// Human-readable identifier; also the key joining outcomes to specs.
    pub display_name: String,
    /// Executable to launch.
    pub command: String,
    /// Arguments handed to the executable.
    pub args: Vec<String>,
    /// When true, the plugin's output is rendered as a nested sub-menu.
    pub show_in_sub_menu: bool,
}

/// The whole configuration: the plugins in their configured order.
pub struct Config {
    pub plugins: Vec<PluginConfig>,
}

} // verus!
