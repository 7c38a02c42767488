//! Capture of HTTP requests and responses for processing away from the
//! request path.
//!
//! This library holds the decisions of the capture middleware: which requests
//! are captured ([`config`]), how captured headers and bodies are assembled
//! ([`headers`], [`body_wrapper`]), how the life of one call decides between
//! reporting a response and reporting an abandonment ([`lifecycle`]), how
//! captured items are batched for the background task ([`batching`]), how
//! requests are correlated with their responses ([`correlation`],
//! [`trace_ids`]), and the composite and logging handlers
//! ([`multi_handler`], [`logging_handler`]).

pub mod batching;
pub mod body_wrapper;
pub mod config;
pub mod correlation;
pub mod headers;
pub mod lifecycle;
pub mod logging_handler;
pub mod multi_handler;
pub mod trace_ids;
pub mod types;

pub use body_wrapper::BodyCaptureError;
pub use config::{PathFilter, RequestLoggerConfig};
pub use logging_handler::LoggingHandler;
pub use multi_handler::MultiHandler;
pub use types::{RequestData, ResponseData};
