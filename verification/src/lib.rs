//! Generator of Linux kernel RPC client and server modules from an RPC
//! language description: the tokenizer, the parser with its semantic checks,
//! and the emitter of C sources, each with a verified contract.

pub mod rpc;
pub mod rpc_lexer;
pub mod rpc_parser;
pub mod text;
pub mod vectors;
pub mod chars;
pub mod lexer;
pub mod rpc_generator;
