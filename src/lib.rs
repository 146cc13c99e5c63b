//! A file-sharing server's core: a path sandbox, HTTP range answers,
//! a chunked upload planner, directory management decisions, and the
//! choice between the RPC and file-serving stacks.

pub mod data;
pub mod grpc;
pub mod multiplex;
pub mod path;
pub mod range;
pub mod serve;
pub mod upload;
