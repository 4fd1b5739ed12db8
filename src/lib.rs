pub mod connect;
pub mod ids;
pub mod laws;
pub mod minivec;
pub mod network;
mod random;
