pub mod packets;
pub mod adapter;
pub mod handle;
