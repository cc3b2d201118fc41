//! Fixed-width big-endian integer codecs and the decode/encode capabilities
//! that the container codecs are built on.

pub mod decode;
pub mod encode;
