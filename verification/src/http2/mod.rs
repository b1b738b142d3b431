pub mod frame;
