pub mod buffer;
pub mod compressor;
pub mod processor;
