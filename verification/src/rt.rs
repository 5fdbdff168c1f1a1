pub mod list;
pub mod vtable;
pub mod strings;
pub mod buffer;
