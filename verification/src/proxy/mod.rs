//! The parts of the proxy that decide: where a request goes, with which key, what is put
//! into it, and what is made of the reply.

pub mod auth;
pub mod context;
pub mod errors;
pub mod extensions;
pub mod mcp;
pub mod message;
pub mod models;
pub mod reply;
pub mod request;
pub mod review;
pub mod stats;
pub mod turn;
pub mod url;
pub mod usage;

pub use auth::determine_provider;
pub use errors::ProxyError;
pub use message::{ChatCompletionRequest, ChatMessage, ContentPart, MessageContent};
pub use reply::{MAX_SSE_LINE_BYTES, SSE_STREAM_TIMEOUT_SECS};
pub use turn::LoopControl;
pub use url::normalize_base_url;
pub use usage::extract_usage_from_sse_event;
