//! A host-local configuration agent library: it models managed services whose
//! configuration files are rendered from templates and remote parameter values,
//! keeps an in-memory index of those parameters, applies change events arriving
//! on an ordered stream, and plans the scoped re-render that each change needs.

pub mod config;
pub mod consumer;
pub mod error;
pub mod index;
pub mod render;
pub mod store;
pub mod value;

pub use config::{Config, Parameter, Service, Setting};
pub use error::DaemonError;
pub use value::Value;
