//! Templates for HTTP requests and the engine that renders them.
//!
//! A recipe names a request whose URL, headers and body are templates. A
//! placeholder in a template stands for a field, given by a profile or by
//! the caller, or for a chain: a value taken from the response of another
//! recipe, read from history or fetched by sending that recipe's request
//! first. Nothing in here sends anything. A build hands out the request to
//! send and goes on when it receives what came back.

pub mod builder;
pub mod chain;
pub mod cli;
pub mod error;
pub mod fields;
pub mod help;
pub mod history;
pub mod json;
pub mod key;
pub mod lexer;
pub mod prompt;
pub mod request;
pub mod template;
pub mod text;
