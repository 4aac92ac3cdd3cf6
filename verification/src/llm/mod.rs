//! Language-model requests and the handling of their replies.

pub mod client;
pub mod openai;
