//! A verified core for an on-device LLM inference front end: the stopping
//! rules of the streaming callback, prompt templates, and the bookkeeping of
//! the ONNX decode loop.
pub mod common;
pub mod engines;
pub mod text;
