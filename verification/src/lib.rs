//! A gateway library for two OpenAI-compatible protocols: it turns
//! requests of the Responses protocol into Chat Completions requests, and
//! complete or streamed Chat Completions responses back into objects and
//! lifecycle events of the Responses protocol. Around this core stand the
//! catalog of upstream models and the decisions of the gateway's entry
//! point.

pub mod codec;
pub mod config;
pub mod directory;
pub mod events;
pub mod gateway;
pub mod ids;
pub mod json;
pub mod laws;
pub mod model;
pub mod request;
pub mod response;
pub mod shape;
pub mod sse;
pub mod stream;
pub mod text;
pub mod transitions;
