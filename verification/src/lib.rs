//! Protocol logic of a streaming chat-completion client.
//!
//! The library turns a conversation into the turns that are sent to a
//! chat-completion endpoint, and the lines of the streamed answer back into
//! text. It does no input or output of its own: a caller posts the request,
//! hands over the lines of the response body as they arrive, and does what
//! the library says after each.

pub mod chunk;
pub mod completion;
pub mod encoder;
pub mod json;
pub mod message;
pub mod request;
pub mod stream;
pub mod text;

pub use crate::chunk::{ChatCompletionChunk, Choice, Delta, ShapeError};
pub use crate::completion::{completion_text, end_marker, Action, Completion};
pub use crate::encoder::serialize_messages;
pub use crate::json::{parse_json, JsonValue, Member};
pub use crate::message::{Message, Role, WireTurn};
pub use crate::request::{
    content_type, endpoint, read_timeout_secs, status_error, StatusCode,
};
pub use crate::stream::{decode_lines, next_chunk, ChatCompletionStream, DecodeError, Step};
