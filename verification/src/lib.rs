//! A declarative configuration tool core: configuration specs are validated
//! against a requested target, their variables merged, a state record written,
//! and the matching provider dispatched.

pub mod ansible;
pub mod cli;
pub mod config;
pub mod errors;
pub mod state;
pub mod value;

pub use crate::ansible::AnsibleWrapper;
pub use crate::config::{ConfigManager, ConfigProvider, ConfigSpec};
pub use crate::errors::ApplyError;
pub use crate::state::StateAdapter;
pub use crate::value::Value;
