//! Request handling for an OpenAI-compatible front end to Grok: the model
//! catalogue, the parsing of the published model table, the checking and
//! flattening of chat messages, and the shapes of the upstream payload and of
//! the responses sent back.
pub mod text;
pub mod json;
pub mod error;
pub mod model;
pub mod model_source;
pub mod chat;
pub mod api_chat;
pub mod outside;
pub mod responses;
