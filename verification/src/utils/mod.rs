//! Byte-level helpers shared by the codecs.

pub mod endian;
pub mod int_bytes;
pub mod prime_numbers;
pub mod read_bytes;
pub mod rsa;
pub mod write_bytes;
