pub mod manager;
pub mod sender_map;
pub mod task;
