pub mod tlv;
pub mod verify;
pub mod envelope;
