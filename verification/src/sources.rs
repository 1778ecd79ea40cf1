//! Configuration sources: the source capability and the descriptors for the
//! built-in origins (in-memory map, environment, file, remote endpoint).

pub mod config_source;
pub mod env;
pub mod file;
pub mod remote;
