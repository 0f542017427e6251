//! A small, verified HTTP request-handling pipeline: a segment-based route
//! matcher with per-route method tables, a handler/layer composition system,
//! typed request extraction and response conversion, and a graceful-shutdown
//! connection lifecycle. Transport I/O stays outside the library; the library
//! works on plain requests and responses.
pub mod app;
pub mod body;
pub mod extract;
pub mod handler;
pub mod json;
pub mod lifecycle;
pub mod num;
pub mod prelude;
pub mod request;
pub mod response;
pub mod router;
pub mod template;

pub use app::App;
pub use handler::Handler;
pub use handler::Layer;
pub use request::Request;
pub use response::HttpResponse;
pub use response::Response;
pub use router::Router;
