pub mod controller;
pub mod events;
pub mod retry;
pub mod message;
pub mod splitter;
pub mod text;

pub use controller::SseController;
pub use events::{
    classify_frame, dispatch_step, handle_attempt_end, is_success_status, stream_step_outcome,
    ArriServerError, FrameKind, SseAction, SseEvent, StreamStep,
};
pub use message::{ArriModel, ParsedSseMessage, SeeMessageMethods, SseMessage};
pub use retry::AttemptState;
pub use splitter::{ingest_chunk, sse_messages_from_string};
