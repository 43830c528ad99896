//! A pane switcher for a terminal multiplexer: the list of selectable panes,
//! the current and previous focus, a ring of starred panes, and the key
//! bindings that the plugin asks its host to install.

pub mod pane_id;
pub mod star;
pub mod registry;
pub mod keybind;
pub mod plugin;
