pub mod asr;
pub mod cancel;
pub mod data_request;
pub mod der;
pub mod errors;
pub mod fdr;
pub mod fw_updater;
pub mod img4;
pub mod ipsw;
pub mod mbn;
pub mod mode;
pub mod options;
pub mod progress;
pub mod recovery;
pub mod restored;
pub mod state_machine;
pub mod transfer;
