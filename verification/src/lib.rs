//! An authenticated MCP server on the loopback address: what it lets through, what it answers, how
//! many calls it runs at once and how it stops.
//!
//! Every decision of the server is a function of this library. Sockets, files, tasks and the clock
//! belong to the program around it, which hands in what happened and does what comes back.

pub mod address;
pub mod auth;
pub mod connection;
pub mod endpoint;
pub mod headers;
pub mod json;
pub mod media;
pub mod reply;
pub mod request;
pub mod startup;
pub mod state;
pub mod stream;
pub mod text;
pub mod token;
pub mod tool;
