//! The evaluation environment of an expression engine: user-defined functions
//! and variables, plus the settings an evaluator consults while it runs.

pub mod bindings;
pub mod context;

pub use bindings::Bindings;
pub use context::settings;
pub use context::Context;
