pub mod listener;
pub mod socket;
pub mod stream;
