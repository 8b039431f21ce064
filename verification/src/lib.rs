//! The verified core of a single-threaded asynchronous runtime.

pub mod blocking;
pub mod builder;
pub mod driver;
pub mod error;
pub mod executor;
pub mod executor_calls;
pub mod executor_laws;
pub mod fd_inner;
pub mod fs;
pub mod io;
pub mod join;
pub mod net;
pub mod op;
pub mod slots;
pub mod time;
pub mod timer;
pub mod util;
