//! The names an application built on this library usually wants in scope.
pub use crate::app::App;
pub use crate::body::empty::Empty;
pub use crate::body::json::Json;
pub use crate::handler::Handler;
pub use crate::handler::Layer;
pub use crate::request::Method;
pub use crate::request::Request;
pub use crate::response::HttpResponse;
pub use crate::response::Response;
pub use crate::router::Router;
pub use crate::response::STATUS_BAD_REQUEST;
pub use crate::response::STATUS_METHOD_NOT_ALLOWED;
pub use crate::response::STATUS_NOT_FOUND;
pub use crate::response::STATUS_OK;
