//! Rendering of one text template against the data of one invocation.
//!
//! An invocation brings a message envelope, a configuration, a payload and
//! the state of a flow. The library builds one context from them, renders
//! the configured template against it, and answers with a result that holds
//! the rendered text or an error.

pub mod capabilities;
pub mod config;
pub mod context;
pub mod describe;
pub mod engine;
pub mod envelope;
pub mod failure;
pub mod invocation;
pub mod invoke;
pub mod json;
pub mod normalize;
pub mod outcome;
pub mod payload;
pub mod stream;
pub mod text;
pub mod value;
pub mod views;

pub use crate::config::default_wrap;
pub use crate::describe::describe_payload;
pub use crate::failure::InvokeFailure;
pub use crate::invoke::invoke_template;
