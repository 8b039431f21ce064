//! Files: options, metadata, paths, and how an operation on a file is carried out.

pub mod file;
pub mod metadata;
pub mod open_options;
pub mod path;
