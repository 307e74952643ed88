pub mod bounded_channel;
