//! The example body adapters: the empty body and the JSON body.
pub mod empty;
pub mod json;

pub use empty::Empty;
pub use json::Json;
pub use json::JsonError;
