//! Socket addresses as the system takes them, and connecting to the first of several.

pub mod addr;
pub mod connect;
pub mod unix;
