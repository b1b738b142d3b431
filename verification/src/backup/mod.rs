pub mod device_link;
pub mod journal;
pub mod messages;
pub mod paths;
pub mod requests;
pub mod transaction;
pub mod upload;
