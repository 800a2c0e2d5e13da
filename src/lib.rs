pub mod text;
pub mod otp;
pub mod table;
pub mod archive;
pub mod envelope;
pub mod storage;
pub mod laws;
