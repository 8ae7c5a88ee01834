//! Backend/model abstraction layer for driving locally running LLM services,
//! with a streaming-completion pipeline: a registry of named backends, a
//! boot/shutdown state machine with health-polling retries, a runtime-info
//! cache with time-based invalidation, and a chunked NDJSON decoder that turns
//! raw byte chunks into discrete completion events with a cancellation path.
//!
//! All network and process work is performed by the embedding runtime; this
//! library holds the state, the decisions and the wire format, and proves
//! them against their specifications.

pub mod boot;
pub mod chat;
pub mod decoder;
pub mod errors;
pub mod json;
pub mod llm;
pub mod ollama;
pub mod registry;
pub mod session;
pub mod wire;

pub use boot::{boot_step, BootCommand, BootEvent, BootFailure, BootPhase, BOOT_TRIES};
pub use chat::{ChatMessage, ChatMessageInner, ChatResponse, Role};
pub use decoder::NdJsonDecoder;
pub use errors::{internal, Error, ErrorKind};
pub use llm::{Capability, ModelInfo, PromptEvent, RuntimeInfo};
pub use ollama::{not_ollama, OllamaBackend, OllamaModel, TagEntry};
pub use registry::{build_backend_store, BackendRef, BackendStore};
pub use session::{PromptSession, ReaderInput};
