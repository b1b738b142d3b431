pub mod devices;
pub mod errors;
pub mod server;
