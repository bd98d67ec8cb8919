//! An HTTP-to-command bridge core: path parsing, reply-to-JSON conversion and
//! the mapping of command outcomes to HTTP responses.
pub mod text;
pub mod path;
pub mod reply;
pub mod json;
pub mod response;
pub mod config;
