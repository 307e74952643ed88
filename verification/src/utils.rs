pub mod counter;
pub mod ring_buffer;
