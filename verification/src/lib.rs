//! Decoder for the IDX binary tensor format (the format used to distribute
//! datasets such as MNIST): a short big-endian header declaring an element
//! type and a dimension vector, followed by flat row-major element data.

pub mod bytes;
pub mod decode;
pub mod scalar;
pub mod shape;
pub mod tensor;

pub use decode::parse_header;
pub use decode::read_idx;
pub use decode::IdxError;
pub use scalar::IdxData;
pub use scalar::IdxType;
pub use tensor::Tensor;
