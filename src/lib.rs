//! Renders an in-memory description of a multi-container deployment as a
//! compose document, with every line of the output stated over the model.
pub mod laws;
pub mod model;
pub mod render;
pub mod scalar;

pub use model::{
    Command, Compose, ComposeError, Dependency, Environment, Extension, Label, Network, Policy,
    Port, Service, Volume,
};
pub use render::parse_compose;
pub use scalar::needs_quoting;
