//! Apache-style access-log lines for a web server: a format mini-language,
//! two-phase field resolution, path exclusion and byte counting of the
//! response body with a log line produced exactly once.

pub mod format;
pub mod middleware;
pub mod resolve;
pub mod stream;
pub mod text;

pub use format::{compile, FormatText, TextKind};
pub use middleware::{ConfigError, TracingMiddleware, DEFAULT_FORMAT};
pub use resolve::{
    header_value, resolve_request, resolve_response, timestamp_string, HeaderEntry, RequestInfo,
    ResponseInfo, Timestamp,
};
pub use stream::{render, BodyLog};
