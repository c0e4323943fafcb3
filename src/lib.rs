//! Named items, each with a set of mutually exclusive named states, and the
//! rules for adding, removing, listing and switching them.
mod config;
mod store;
mod text;

pub use config::{check_state_name, ConfigCommandItem, ConfigCommandItemState, ConfigError, ConfigItem};


pub use text::shell_invocation;
pub use store::{Config, ConfigManager};
