//! The built-in tools' own logic: their names, descriptions and parameter
//! schemas, the commands they run, and how their outputs are reported. The
//! file system and the processes they touch stay with the caller.
pub mod file_ops;
pub mod git_ops;
pub mod registry;
pub mod search;
pub mod terminal;
