//! Start-up sequence of an inference server: configuration discovery,
//! secret lookup, model download and service registration, as verified
//! decision logic that an I/O shell drives.

pub mod codec;
pub mod config_map;
pub mod consulr;
pub mod descent;
pub mod s3_download;
pub mod settings;
pub mod starter;
pub mod text;
