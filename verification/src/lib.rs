use vstd::prelude::*;

pub mod text;
pub mod textmap;
pub mod url;
pub mod env;
pub mod json;
pub mod errors;
pub mod tools;
pub mod structured;
pub mod sse;
pub mod catalog;
pub mod resolution;
pub mod request;
pub mod usage;
pub mod profiles;
pub mod events;
pub mod native;
pub mod compatible;
pub mod timeouts;
pub mod retry;
pub mod anthropic;
pub mod tool_merge;
pub mod canonical;
pub mod gemini;
pub mod payload;
pub mod gemini_request;
pub mod anthropic_request;
pub mod anthropic_messages;
pub mod anthropic_options;
pub mod gemini_options;
pub mod json_merge;
pub mod openai_response;
pub mod openai_request;
pub mod gemini_body;
pub mod anthropic_body;
pub mod generation;
pub mod gemini_stream;
pub mod stream_actions;
pub mod anthropic_stream;
pub mod openai_stream;
pub mod gemini_stream_reader;
pub mod client_routes;
pub mod chat_response;

verus! {

} // verus!
