//! A to-do list: the ordered store of tasks and the rules by which user
//! input changes it.

pub mod drag;
pub mod frame;
pub mod laws;
pub mod navigate;
pub mod order;
pub mod state;
pub mod store;
pub mod task;
pub mod text;
