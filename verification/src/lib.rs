pub mod executor;
pub mod fs;
pub mod net;
pub mod reactor;
pub mod runtime;
pub mod spawner;
pub mod sync;
pub mod task;
pub mod utils;
