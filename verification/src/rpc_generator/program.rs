//! What is written for each program: a client module and a server module.

pub mod client;
pub mod server;
