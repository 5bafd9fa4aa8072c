//! Conversion between the OpenAI Responses API and the Chat Completions API:
//! request bodies, response bodies and server-sent event streams.
//!
//! The JSON bodies are values of [`Json`]; each conversion is stated by a
//! spec function over the model [`JsonV`] of its input.

pub mod convert;
pub mod error;
pub mod json;
pub mod laws;
pub mod request;
pub mod response;
pub mod sse;
pub mod stream;
pub mod text;
pub mod wire;

pub use convert::responses_role_to_chat_role;
pub use error::ProxyError;
pub use json::{Json, JsonNumber, JsonV, NumberV};
pub use request::{chat_to_responses_request, responses_to_chat_request};
pub use response::{chat_to_responses_response, response_usage_in_range, responses_to_chat_response};
pub use sse::{read_chat_block, read_responses_block, ChatSseInput, ResponsesSseInput, SseBuffer};
pub use stream::{
    chunk_usage_in_range, responses_event_to_chat, responses_input_to_chat, ChatToResponsesStream,
    SseFrame,
};
pub use wire::{render_frame, responses_block_to_chat, responses_bytes_to_chat};
