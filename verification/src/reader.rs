//! From raw bytes to key events.

pub mod byte_stream;
pub mod decoder;
pub mod key_stream;
pub mod strategy;

pub use byte_stream::{ByteStream, Fetch};
pub use decoder::Decoder;
pub use key_stream::KeyStream;

