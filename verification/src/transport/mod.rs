//! Framing of packages on a byte stream.

pub mod tcp_client;
