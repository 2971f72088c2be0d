//! Borrowed, allocation-free views and caller-buffer builders for exact network wire layouts:
//! TCP segments, TLS records, handshakes and extensions, and QUIC packets, frames and
//! transport parameters.

pub mod error;
pub mod internet_checksum;
pub mod quic;
pub mod tcp;
pub mod tls;
pub mod wire;
