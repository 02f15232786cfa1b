pub mod exec_adapter;
pub mod gate;
pub mod markers;
pub mod phase;
