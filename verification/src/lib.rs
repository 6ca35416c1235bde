pub mod pool;
pub mod request;
pub mod response;
pub mod text;

pub use pool::{Message, ThreadPool, Worker, WorkerState};
pub use request::{first_line, parse_request, render_request_log, Request};
pub use response::{build_response, resolve_fallback, resolve_target};
pub use text::extension_of;
